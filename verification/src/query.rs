//! The search query builder.
//!
//! Search takes a variable number of inclusion tags, a variable number of
//! exclusion tags and a mode flag, so the SQL text has to be assembled per
//! call: one placeholder per tag, an optional anti-join clause for the
//! exclusions, and a count threshold that is 1 in any-mode and the number
//! of inclusion tags in all-mode. The assembly is a pure function from the
//! two counts and the mode to the text, specified character for character,
//! with the ordered bind parameters (inclusions first, then exclusions)
//! built alongside.
use vstd::prelude::*;

use vstd::string::StringExecFns;

verus! {

/// The decimal digit `d` as text.
pub open spec fn spec_digit(d: nat) -> Seq<char> {
    if d == 0 {
        "0"@
    } else if d == 1 {
        "1"@
    } else if d == 2 {
        "2"@
    } else if d == 3 {
        "3"@
    } else if d == 4 {
        "4"@
    } else if d == 5 {
        "5"@
    } else if d == 6 {
        "6"@
    } else if d == 7 {
        "7"@
    } else if d == 8 {
        "8"@
    } else {
        "9"@
    }
}

/// The number `n` in decimal notation, most significant digit first.
pub open spec fn spec_decimal(n: nat) -> Seq<char>
    decreases n,
{
    if n < 10 {
        spec_digit(n)
    } else {
        spec_decimal(n / 10) + spec_digit(n % 10)
    }
}

/// `n` comma-separated SQL placeholders: empty for 0, otherwise
/// `?,?,...,?` with `n` question marks.
pub open spec fn spec_placeholders(n: nat) -> Seq<char>
    decreases n,
{
    if n == 0 {
        Seq::empty()
    } else if n == 1 {
        "?"@
    } else {
        spec_placeholders((n - 1) as nat) + ",?"@
    }
}

/// The anti-join clause dropping every path that carries one of the `m`
/// excluded tags; empty when there are no exclusions.
pub open spec fn spec_exclude_clause(m: nat) -> Seq<char> {
    if m == 0 {
        Seq::empty()
    } else {
        " AND f.id NOT IN (SELECT ft2.file_id FROM file_tags ft2 JOIN tags t2 ON t2.id = ft2.tag_id WHERE t2.name IN ("@
            + spec_placeholders(m) + "))"@
    }
}

/// The count threshold: any-mode asks for at least one distinct matched
/// tag, all-mode for exactly the number of inclusion tags.
pub open spec fn spec_having_clause(n: nat, any: bool) -> Seq<char> {
    if any {
        ">= 1"@
    } else {
        "= "@ + spec_decimal(n)
    }
}

/// The whole search statement for `n` inclusion tags, `m` exclusion tags
/// and the given mode.
pub open spec fn spec_search_query(n: nat, m: nat, any: bool) -> Seq<char> {
    "SELECT f.path FROM files f JOIN file_tags ft ON ft.file_id = f.id JOIN tags t ON t.id = ft.tag_id WHERE t.name IN ("@
        + spec_placeholders(n) + ")"@ + spec_exclude_clause(m)
        + " GROUP BY f.id HAVING COUNT(DISTINCT t.name) "@ + spec_having_clause(n, any)
}

/// One decimal digit as text.
fn digit_string(d: usize) -> (r: &'static str)
    requires
        d < 10,
    ensures
        r@ == spec_digit(d as nat),
{
    if d == 0 {
        "0"
    } else if d == 1 {
        "1"
    } else if d == 2 {
        "2"
    } else if d == 3 {
        "3"
    } else if d == 4 {
        "4"
    } else if d == 5 {
        "5"
    } else if d == 6 {
        "6"
    } else if d == 7 {
        "7"
    } else if d == 8 {
        "8"
    } else {
        "9"
    }
}

/// Renders `n` in decimal notation.
fn decimal_string(n: usize) -> (r: String)
    ensures
        r@ == spec_decimal(n as nat),
    decreases n,
{
    if n < 10 {
        let mut s = String::new();
        s.append(digit_string(n));
        s
    } else {
        let mut s = decimal_string(n / 10);
        s.append(digit_string(n % 10));
        s
    }
}

/// Renders `n` comma-separated placeholders.
fn placeholders(n: usize) -> (r: String)
    ensures
        r@ == spec_placeholders(n as nat),
{
    let mut s = String::new();
    if n == 0 {
        return s;
    }
    s.append("?");
    let mut i: usize = 1;
    while i < n
        invariant
            1 <= i <= n,
            s@ == spec_placeholders(i as nat),
        decreases n - i,
    {
        s.append(",?");
        i += 1;
    }
    s
}

/// Builds the parameterized search statement for `incl_count` inclusion
/// tags and `exclude_count` exclusion tags under the given mode. The text
/// is pinned character for character by `spec_search_query`.
pub fn build_search_query(incl_count: usize, exclude_count: usize, any: bool) -> (r: String)
    ensures
        r@ == spec_search_query(incl_count as nat, exclude_count as nat, any),
{
    let mut q = String::new();
    q.append(
        "SELECT f.path FROM files f JOIN file_tags ft ON ft.file_id = f.id JOIN tags t ON t.id = ft.tag_id WHERE t.name IN (",
    );
    let incl_ph = placeholders(incl_count);
    q.append(incl_ph.as_str());
    q.append(")");
    if exclude_count > 0 {
        q.append(
            " AND f.id NOT IN (SELECT ft2.file_id FROM file_tags ft2 JOIN tags t2 ON t2.id = ft2.tag_id WHERE t2.name IN (",
        );
        let exclude_ph = placeholders(exclude_count);
        q.append(exclude_ph.as_str());
        q.append("))");
    }
    q.append(" GROUP BY f.id HAVING COUNT(DISTINCT t.name) ");
    if any {
        q.append(">= 1");
    } else {
        q.append("= ");
        let threshold = decimal_string(incl_count);
        q.append(threshold.as_str());
    }
    proof {
        assert(q@ =~= spec_search_query(incl_count as nat, exclude_count as nat, any));
    }
    q
}

/// The ordered bind parameters that go with the built statement: the
/// inclusion tags first, then the exclusion tags.
pub fn build_search_params(incl: &Vec<String>, exclude: &Vec<String>) -> (r: Vec<String>)
    ensures
        r@ == incl@ + exclude@,
{
    let mut out: Vec<String> = Vec::new();
    let mut i: usize = 0;
    while i < incl.len()
        invariant
            0 <= i <= incl@.len(),
            out@ == incl@.take(i as int),
        decreases incl@.len() - i,
    {
        out.push(incl[i].clone());
        proof {
            assert(out@ =~= incl@.take(i + 1 as int));
        }
        i += 1;
    }
    let mut j: usize = 0;
    while j < exclude.len()
        invariant
            0 <= j <= exclude@.len(),
            out@ == incl@ + exclude@.take(j as int),
        decreases exclude@.len() - j,
    {
        out.push(exclude[j].clone());
        proof {
            assert(out@ =~= incl@ + exclude@.take(j + 1 as int));
        }
        j += 1;
    }
    proof {
        assert(incl@.take(incl@.len() as int) =~= incl@);
        assert(incl@ + exclude@.take(exclude@.len() as int) =~= incl@ + exclude@);
    }
    out
}

} // verus!

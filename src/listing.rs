//! The listing of the alias table, one line per alias in name order.
use vstd::prelude::*;
use vstd::string::StringExecFns;

use crate::config::{lemma_map_of, lemma_map_of_remove, lemma_sorted_distinct, map_of, strictly_sorted, Config};
use crate::order::{lemma_name_lt_irreflexive, lemma_name_lt_transitive, name_lt};

verus! {

/// The line that lists one alias: ` - name: "command"`.
pub open spec fn entry_line(name: Seq<char>, command: Seq<char>) -> Seq<char> {
    " - "@ + name + ": \""@ + command + "\""@
}

/// The lines that list the given entries, under a heading; no entries give
/// a line of their own that says so.
pub open spec fn listing_of(entries: Seq<(Seq<char>, Seq<char>)>) -> Seq<Seq<char>> {
    if entries.len() == 0 {
        seq!["Available aliases:"@, "No aliases found."@]
    } else {
        seq!["Available aliases:"@] + entries.map_values(
            |e: (Seq<char>, Seq<char>)| entry_line(e.0, e.1),
        )
    }
}

/// Renders one entry of the listing.
pub fn entry_text(name: &str, command: &str) -> (r: String)
    ensures
        r@ == entry_line(name@, command@),
{
    let mut line = String::from_str(" - ");
    line.append(name);
    line.append(": \"");
    line.append(command);
    line.append("\"");
    line
}

/// The lines that list the table: a heading, then one line per alias in
/// increasing name order, or a line that says there are none.
pub fn list_aliases(config: &Config) -> (r: Vec<String>)
    ensures
        strictly_sorted(config.pairs()),
        map_of(config.pairs()) == config@,
        r@.map_values(|l: String| l@) == listing_of(config.pairs()),
{
    let mut lines: Vec<String> = Vec::new();
    lines.push(String::from_str("Available aliases:"));
    if config.is_empty() {
        lines.push(String::from_str("No aliases found."));
        assert(lines@.map_values(|l: String| l@) =~= listing_of(config.pairs()));
        return lines;
    }
    let aliases = config.aliases();
    let mut i: usize = 0;
    while i < aliases.len()
        invariant
            aliases@.len() == config.pairs().len(),
            forall|j: int|
                0 <= j < aliases@.len() ==> (#[trigger] aliases@[j]).name@ == config.pairs()[j].0
                    && aliases@[j].command@ == config.pairs()[j].1,
            i <= aliases@.len(),
            lines@.len() == i + 1,
            lines@[0]@ == "Available aliases:"@,
            forall|j: int|
                0 <= j < i ==> (#[trigger] lines@[j + 1])@ == entry_line(
                    config.pairs()[j].0,
                    config.pairs()[j].1,
                ),
        decreases aliases@.len() - i,
    {
        let a = &aliases[i];
        lines.push(entry_text(a.name.as_str(), a.command.as_str()));
        i = i + 1;
    }
    proof {
        let want = listing_of(config.pairs());
        let got = lines@.map_values(|l: String| l@);
        assert forall|j: int| 0 <= j < got.len() implies got[j] == want[j] by {
            if j > 0 {
                assert(lines@[(j - 1) + 1] == lines@[j]);
            }
        }
        assert(got =~= want);
    }
    lines
}

/// Two strictly sorted sequences of pairs with the same mapping are equal.
proof fn lemma_sorted_unique(s1: Seq<(Seq<char>, Seq<char>)>, s2: Seq<(Seq<char>, Seq<char>)>)
    requires
        strictly_sorted(s1),
        strictly_sorted(s2),
        map_of(s1) == map_of(s2),
    ensures
        s1 == s2,
    decreases s1.len(),
{
    lemma_sorted_distinct(s1);
    lemma_sorted_distinct(s2);
    lemma_map_of(s1);
    lemma_map_of(s2);
    if s1.len() == 0 {
        assert(s1 =~= s2);
    } else {
        let a = s1[0].0;
        let b = s2[0].0;
        assert(map_of(s1).contains_key(a));
        assert(map_of(s2).contains_key(b));
        if a != b {
            let j = choose|j: int| 0 <= j < s2.len() && s2[j].0 == a;
            let i = choose|i: int| 0 <= i < s1.len() && s1[i].0 == b;
            assert(name_lt(b, a));
            assert(name_lt(a, b));
            lemma_name_lt_transitive(a, b, a);
            lemma_name_lt_irreflexive(a);
        }
        assert(map_of(s1)[s1[0].0] == s1[0].1);
        assert(map_of(s2)[s2[0].0] == s2[0].1);
        lemma_map_of_remove(s1, 0);
        lemma_map_of_remove(s2, 0);
        let t1 = s1.remove(0);
        let t2 = s2.remove(0);
        assert(strictly_sorted(t1)) by {
            assert forall|x: int, y: int| 0 <= x < y < t1.len() implies name_lt(
                #[trigger] t1[x].0,
                #[trigger] t1[y].0,
            ) by {
                assert(t1[x] == s1[x + 1] && t1[y] == s1[y + 1]);
            }
        }
        assert(strictly_sorted(t2)) by {
            assert forall|x: int, y: int| 0 <= x < y < t2.len() implies name_lt(
                #[trigger] t2[x].0,
                #[trigger] t2[y].0,
            ) by {
                assert(t2[x] == s2[x + 1] && t2[y] == s2[y + 1]);
            }
        }
        lemma_sorted_unique(t1, t2);
        assert(s1 =~= t1.insert(0, s1[0]));
        assert(s2 =~= t2.insert(0, s2[0]));
    }
}

/// The listing of an alias mapping does not depend on how its entries were
/// gathered: any two enumerations of the same mapping in strictly increasing
/// name order list alike, and an empty one lists as a heading and a line that
/// says there are no aliases.
pub proof fn lemma_listing_in_name_order(
    a: Seq<(Seq<char>, Seq<char>)>,
    b: Seq<(Seq<char>, Seq<char>)>,
)
    requires
        strictly_sorted(a),
        strictly_sorted(b),
        map_of(a) == map_of(b),
    ensures
        listing_of(a) == listing_of(b),
        map_of(a).len() == 0 ==> listing_of(a) == seq!["Available aliases:"@, "No aliases found."@],
{
    lemma_sorted_unique(a, b);
    lemma_sorted_distinct(a);
    lemma_map_of(a);
}

} // verus!

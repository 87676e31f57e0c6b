//! Counting attributed lines per author, for one file and for a project.
use crate::blame::{blame_fields, counted_author, parse_blame_line};
use crate::config::AuthorAlias;
use crate::counts::{count_of, lemma_total_counts_order, total_counts, CountMap};
use crate::text::{chars_of, trim, trim_bounds};
use vstd::prelude::*;

verus! {

/// The canonical name of `author`: the `map_to` of the first alias whose
/// `author` equals it, or `author` itself.
pub open spec fn normalize(author: Seq<char>, aliases: Seq<AuthorAlias>) -> Seq<char>
    decreases aliases.len(),
{
    if aliases.len() == 0 {
        author
    } else if aliases[0].author@ == author {
        aliases[0].map_to@
    } else {
        normalize(author, aliases.drop_first())
    }
}

/// The counts of one file's attribution lines: one for the canonical author
/// of each line with non-blank content.
pub open spec fn file_counts(lines: Seq<String>, aliases: Seq<AuthorAlias>) -> Map<Seq<char>, int>
    decreases lines.len(),
{
    if lines.len() == 0 {
        Map::empty()
    } else {
        let m = file_counts(lines.drop_last(), aliases);
        match counted_author(lines.last()@) {
            Some(a) => {
                let k = normalize(a, aliases);
                m.insert(k, count_of(m, k) + 1)
            },
            None => m,
        }
    }
}

/// The counts of each file of a project, in order.
pub open spec fn per_file_counts(files: Seq<Vec<String>>, aliases: Seq<AuthorAlias>) -> Seq<
    Map<Seq<char>, int>,
> {
    Seq::new(files.len(), |i: int| file_counts(files[i]@, aliases))
}

/// The counts of a whole project: the point-wise sum over its files.
pub open spec fn project_counts(files: Seq<Vec<String>>, aliases: Seq<AuthorAlias>) -> Map<
    Seq<char>,
    int,
> {
    total_counts(per_file_counts(files, aliases))
}

proof fn lemma_normalize_unmatched(x: Seq<char>, aliases: Seq<AuthorAlias>)
    requires
        forall|j: int| 0 <= j < aliases.len() ==> #[trigger] aliases[j].author@ != x,
    ensures
        normalize(x, aliases) == x,
    decreases aliases.len(),
{
    if aliases.len() > 0 {
        assert(aliases[0].author@ != x);
        assert forall|j: int| 0 <= j < aliases.drop_first().len() implies #[trigger] aliases.drop_first()[j].author@ != x by {
            assert(aliases.drop_first()[j] == aliases[j + 1]);
        }
        lemma_normalize_unmatched(x, aliases.drop_first());
    }
}

proof fn lemma_normalize_source(x: Seq<char>, aliases: Seq<AuthorAlias>)
    ensures
        normalize(x, aliases) == x || exists|i: int|
            0 <= i < aliases.len() && normalize(x, aliases) == #[trigger] aliases[i].map_to@,
    decreases aliases.len(),
{
    if aliases.len() > 0 && aliases[0].author@ != x {
        lemma_normalize_source(x, aliases.drop_first());
        if normalize(x, aliases) != x {
            let i = choose|i: int|
                0 <= i < aliases.drop_first().len() && normalize(x, aliases.drop_first())
                    == #[trigger] aliases.drop_first()[i].map_to@;
            assert(aliases[i + 1] == aliases.drop_first()[i]);
        }
    }
}

/// Where no alias maps to a name that is itself an alias's `author`,
/// normalizing a name twice gives what normalizing it once gives.
pub proof fn lemma_normalize_idempotent(author: Seq<char>, aliases: Seq<AuthorAlias>)
    requires
        forall|i: int, j: int|
            0 <= i < aliases.len() && 0 <= j < aliases.len() ==> #[trigger] aliases[i].map_to@
                != #[trigger] aliases[j].author@,
    ensures
        normalize(normalize(author, aliases), aliases) == normalize(author, aliases),
{
    let n = normalize(author, aliases);
    lemma_normalize_source(author, aliases);
    if n != author {
        let i = choose|i: int| 0 <= i < aliases.len() && n == #[trigger] aliases[i].map_to@;
        assert forall|j: int| 0 <= j < aliases.len() implies #[trigger] aliases[j].author@ != n by {
            assert(aliases[i].map_to@ != aliases[j].author@);
        }
        lemma_normalize_unmatched(n, aliases);
    }
}

/// A well-formed line whose content is empty or all whitespace adds nothing
/// to a file's counts.
pub proof fn lemma_blank_line_excluded(lines: Seq<String>, line: String, aliases: Seq<AuthorAlias>)
    requires
        blame_fields(line@) is Some,
        trim((blame_fields(line@)->0).1).len() == 0,
    ensures
        file_counts(lines.push(line), aliases) == file_counts(lines, aliases),
{
    assert(lines.push(line).drop_last() =~= lines);
}

/// A well-formed line with content that is not blank adds one to the count
/// of its author's canonical name, and changes no other count.
pub proof fn lemma_counted_line(lines: Seq<String>, line: String, aliases: Seq<AuthorAlias>)
    requires
        blame_fields(line@) is Some,
        trim((blame_fields(line@)->0).1).len() > 0,
    ensures
        ({
            let k = normalize((blame_fields(line@)->0).0, aliases);
            let m = file_counts(lines, aliases);
            file_counts(lines.push(line), aliases) == m.insert(k, count_of(m, k) + 1)
        }),
{
    assert(lines.push(line).drop_last() =~= lines);
}

/// Splitting a project's files into two parts, the counts come out the same
/// whichever part is listed first.
pub proof fn lemma_project_counts_order(
    x: Seq<Vec<String>>,
    y: Seq<Vec<String>>,
    aliases: Seq<AuthorAlias>,
)
    ensures
        project_counts(x + y, aliases) == project_counts(y + x, aliases),
{
    assert(per_file_counts(x + y, aliases) =~= per_file_counts(x, aliases) + per_file_counts(y, aliases));
    assert(per_file_counts(y + x, aliases) =~= per_file_counts(y, aliases) + per_file_counts(x, aliases));
    lemma_total_counts_order(per_file_counts(x, aliases), per_file_counts(y, aliases));
}

/// The canonical name of `author` under `alias_mapping`.
pub fn map_author(author: String, alias_mapping: &[AuthorAlias]) -> (r: String)
    ensures
        r@ == normalize(author@, alias_mapping@),
{
    let mut i: usize = 0;
    assert(alias_mapping@.subrange(0, alias_mapping@.len() as int) =~= alias_mapping@);
    while i < alias_mapping.len()
        invariant
            i <= alias_mapping@.len(),
            normalize(author@, alias_mapping@) == normalize(
                author@,
                alias_mapping@.subrange(i as int, alias_mapping@.len() as int),
            ),
        decreases alias_mapping@.len() - i,
    {
        let ghost rest = alias_mapping@.subrange(i as int, alias_mapping@.len() as int);
        assert(rest.drop_first() =~= alias_mapping@.subrange(i + 1, alias_mapping@.len() as int));
        if alias_mapping[i].author == author {
            return alias_mapping[i].map_to.clone();
        }
        i = i + 1;
    }
    author
}

/// The author to count a line for, if the line counts: well-formed, with
/// non-blank content.
pub fn counted_line_author(line: &str) -> (r: Option<String>)
    ensures
        r is Some <==> counted_author(line@) is Some,
        r matches Some(a) ==> counted_author(line@) == Some(a@),
{
    match parse_blame_line(line) {
        Some((author, content)) => {
            let v = chars_of(content.as_str());
            let (lo, hi) = trim_bounds(&v);
            if lo < hi {
                Some(author)
            } else {
                None
            }
        },
        None => None,
    }
}

/// The per-author line counts of one file's attribution output.
pub fn count_blame_lines(file_blame: &Vec<String>, alias_mapping: &[AuthorAlias]) -> (r: CountMap)
    ensures
        r.wf(),
        r@ == file_counts(file_blame@, alias_mapping@),
        forall|k: Seq<char>| count_of(r@, k) <= file_blame@.len(),
        forall|k: Seq<char>| count_of(r@, k) <= usize::MAX,
{
    let mut counts = CountMap::new();
    let mut i: usize = 0;
    while i < file_blame.len()
        invariant
            i <= file_blame@.len(),
            counts.wf(),
            counts@ == file_counts(file_blame@.subrange(0, i as int), alias_mapping@),
            forall|k: Seq<char>| count_of(counts@, k) <= i,
        decreases file_blame@.len() - i,
    {
        let ghost sub = file_blame@.subrange(0, i + 1);
        assert(sub.drop_last() =~= file_blame@.subrange(0, i as int));
        match counted_line_author(file_blame[i].as_str()) {
            Some(author) => {
                let name = map_author(author, alias_mapping);
                let ghost before = counts@;
                let ghost key = name@;
                counts.add(name, 1);
                assert forall|k: Seq<char>| count_of(counts@, k) <= i + 1 by {
                    if k != key {
                        assert(count_of(counts@, k) == count_of(before, k));
                    }
                }
            },
            None => {},
        }
        i = i + 1;
    }
    assert(file_blame@.subrange(0, file_blame@.len() as int) =~= file_blame@);
    counts
}

/// The per-author line counts of a project: the point-wise sum of the counts
/// of each file's attribution output.
pub fn analyze_project(file_blames: &Vec<Vec<String>>, alias_mapping: &[AuthorAlias]) -> (r:
    CountMap)
    ensures
        r.wf(),
        r@ == project_counts(file_blames@, alias_mapping@),
{
    let mut counts = CountMap::new();
    let mut i: usize = 0;
    let ghost bound: int = usize::MAX as int;
    assert(per_file_counts(file_blames@, alias_mapping@).subrange(0, 0) =~= Seq::<
        Map<Seq<char>, int>,
    >::empty());
    while i < file_blames.len()
        invariant
            i <= file_blames@.len(),
            bound == usize::MAX as int,
            counts.wf(),
            counts@ == total_counts(per_file_counts(file_blames@, alias_mapping@).subrange(0, i as int)),
            forall|k: Seq<char>| count_of(counts@, k) <= i * bound,
        decreases file_blames@.len() - i,
    {
        let file_counts = count_blame_lines(&file_blames[i], alias_mapping);
        proof {
            assert((i + 1) * bound <= bound * bound) by (nonlinear_arith)
                requires
                    i + 1 <= bound,
            ;
            assert((usize::MAX as int) * (usize::MAX as int) <= u128::MAX) by (nonlinear_arith);
            assert forall|k: Seq<char>| count_of(counts@, k) + count_of(file_counts@, k)
                <= u128::MAX by {
                assert(count_of(counts@, k) + count_of(file_counts@, k) <= i * bound + bound);
                assert(i * bound + bound == (i + 1) * bound) by (nonlinear_arith);
            }
        }
        let ghost before = counts@;
        counts.merge(&file_counts);
        proof {
            let all = per_file_counts(file_blames@, alias_mapping@);
            assert(all.subrange(0, i + 1).drop_last() =~= all.subrange(0, i as int));
            assert forall|k: Seq<char>| count_of(counts@, k) <= (i + 1) * bound by {
                assert(count_of(counts@, k) == count_of(before, k) + count_of(file_counts@, k));
                assert(i * bound + bound == (i + 1) * bound) by (nonlinear_arith);
            }
        }
        i = i + 1;
    }
    assert(per_file_counts(file_blames@, alias_mapping@).subrange(0, file_blames@.len() as int)
        =~= per_file_counts(file_blames@, alias_mapping@));
    counts
}

} // verus!

//! The dashboard's rows grouped by owner, and the columns they have room for.

use vstd::prelude::*;
use vstd::string::*;

use crate::list::{none, push_if, put};
use crate::state::RepoCard;
use crate::text::{chars_of, find_first, first_of, same, text_between};

verus! {

broadcast use vstd::string::group_string_axioms;

/// The owner in front of the first slash; nothing when there is no slash.
pub open spec fn owner_of(spec: Seq<char>) -> Seq<char> {
    if first_of(spec, '/') < spec.len() {
        spec.take(first_of(spec, '/') as int)
    } else {
        Seq::empty()
    }
}

/// What follows the first slash; the whole when there is no slash.
pub open spec fn repo_of(spec: Seq<char>) -> Seq<char> {
    if first_of(spec, '/') < spec.len() {
        spec.skip(first_of(spec, '/') as int + 1)
    } else {
        spec
    }
}

/// The owner of each row.
pub open spec fn owners_of(repos: Seq<RepoCard>) -> Seq<Seq<char>> {
    Seq::new(repos.len(), |i: int| owner_of(repos[i].spec@))
}

/// Whether rows are worth grouping: more than one owner, and every row with one.
pub open spec fn worth_grouping(owners: Seq<Seq<char>>) -> bool {
    &&& exists|i: int| 0 <= i < owners.len() && #[trigger] owners[i] != owners[0]
    &&& forall|i: int| 0 <= i < owners.len() ==> (#[trigger] owners[i]).len() > 0
}

/// The owner of each row when they are worth grouping, nothing otherwise.
pub open spec fn grouped(repos: Seq<RepoCard>) -> Seq<Seq<char>> {
    if worth_grouping(owners_of(repos)) {
        owners_of(repos)
    } else {
        Seq::empty()
    }
}

/// Whether row `i` opens a group: it is the first, or its owner is new.
pub open spec fn opens(owners: Seq<Seq<char>>, i: int) -> bool {
    0 <= i < owners.len() && (i == 0 || owners[i - 1] != owners[i])
}

/// Whether the dashboard's rows are worth grouping by owner, and where the
/// headings go.
///
/// Only when there is more than one owner: heading every row of a single-org
/// dashboard with that org says nothing and costs a row. And only when every
/// row has one: a workspace scan produces bare directory names, which have no
/// owner to group by.
#[derive(PartialEq, Eq, Debug)]
pub struct Grouping {
    /// Owner per row, empty when grouping is off.
    pub owners: Vec<String>,
}

impl Grouping {
    /// The owner per row.
    pub open spec fn rows(&self) -> Seq<Seq<char>> {
        self.owners.deep_view()
    }

    /// How these repos group.
    pub fn of(repos: &Vec<RepoCard>) -> (g: Grouping)
        ensures
            g.rows() == grouped(repos@),
    {
        let mut owners: Vec<String> = none();
        let mut all = true;
        let mut several = false;
        let mut i: usize = 0;
        let ghost want = owners_of(repos@);
        assert(owners.deep_view() =~= want.take(0));
        while i < repos.len()
            invariant
                i <= repos@.len(),
                want == owners_of(repos@),
                owners@.len() == i,
                owners.deep_view() == want.take(i as int),
                all <==> forall|j: int| 0 <= j < i ==> (#[trigger] want[j]).len() > 0,
                several <==> exists|j: int| 0 <= j < i && #[trigger] want[j] != want[0],
            decreases repos@.len() - i,
        {
            let v = chars_of(&repos[i].spec);
            let at: usize = find_first(&v, '/');
            let owner = if at < v.len() {
                text_between(&v, 0, at)
            } else {
                String::new()
            };
            proof {
                assert(v@.subrange(0, at as int) =~= v@.take(at as int));
                assert(owner@ =~= owner_of(repos@[i as int].spec@));
                assert(want[i as int] == owner@);
            }
            if owner.unicode_len() == 0 {
                assert(want[i as int].len() == 0);
                all = false;
            }
            if i > 0 && !same(&owner, &owners[0]) {
                assert(owners.deep_view()[0] == owners@[0]@);
                assert(want[i as int] != want[0]);
                several = true;
            }
            proof {
                if i > 0 {
                    assert(owners.deep_view()[0] == owners@[0]@);
                    assert(want.take(i as int)[0] == want[0]);
                }
            }
            put(&mut owners, owner);
            assert(owners.deep_view() =~= want.take(i + 1));
            i = i + 1;
        }
        assert(want.take(i as int) =~= want);
        if several && all {
            Grouping { owners }
        } else {
            Grouping { owners: none() }
        }
    }

    /// Whether there are headings at all.
    pub fn on(&self) -> (r: bool)
        ensures
            r == (self.rows().len() > 0),
    {
        self.owners.len() > 0
    }

    /// The owner heading that belongs above row `i`, if this row opens a group.
    pub fn heading_before(&self, i: usize) -> (r: Option<&str>)
        ensures
            r is Some <==> opens(self.rows(), i as int),
            r matches Some(s) ==> s@ == self.rows()[i as int],
    {
        if i >= self.owners.len() {
            return None;
        }
        assert(self.rows()[i as int] == self.owners@[i as int]@);
        if i > 0 {
            assert(self.rows()[i - 1] == self.owners@[i - 1]@);
            if same(&self.owners[i - 1], &self.owners[i]) {
                return None;
            }
        }
        Some(self.owners[i].as_str())
    }

    /// The repo's name with the owner dropped, when a heading already carries
    /// it.
    pub fn short_name(&self, spec: &str) -> (r: String)
        ensures
            r@ == short(self.rows(), spec@),
    {
        if !self.on() {
            return spec.to_string();
        }
        let v = chars_of(spec);
        let at: usize = find_first(&v, '/');
        if at < v.len() {
            let r = text_between(&v, at + 1, v.len());
            assert(v@.subrange(at + 1, v@.len() as int) =~= v@.skip(at + 1));
            r
        } else {
            spec.to_string()
        }
    }
}

/// A repo's name under these headings.
pub open spec fn short(owners: Seq<Seq<char>>, spec: Seq<char>) -> Seq<char> {
    if owners.len() > 0 {
        repo_of(spec)
    } else {
        spec
    }
}

/// How many headings stand above the first `n` rows.
pub open spec fn headings(owners: Seq<Seq<char>>, n: int) -> int
    decreases n,
{
    if n <= 0 {
        0
    } else {
        headings(owners, n - 1) + (if opens(owners, n - 1) {
            1int
        } else {
            0
        })
    }
}

/// The line of the table that row `i` is on, headings counted.
pub open spec fn line_of_row(owners: Seq<Seq<char>>, i: int) -> int {
    i + headings(owners, i + 1)
}

/// The row whose heading covers row `i`.
pub open spec fn opener(owners: Seq<Seq<char>>, i: int) -> int
    decreases i,
{
    if i <= 0 || opens(owners, i) {
        i
    } else {
        opener(owners, i - 1)
    }
}

/// Every row sits under its own owner's heading: the nearest heading at or
/// above it carries its owner.
pub proof fn law_rows_sit_under_their_owner(owners: Seq<Seq<char>>, i: int)
    requires
        0 <= i < owners.len(),
    ensures
        0 <= opener(owners, i) <= i,
        opens(owners, opener(owners, i)),
        owners[opener(owners, i)] == owners[i],
        forall|j: int| opener(owners, i) < j <= i ==> !opens(owners, j),
    decreases i,
{
    if i > 0 && !opens(owners, i) {
        law_rows_sit_under_their_owner(owners, i - 1);
    }
}

/// Nothing of a repo's name is lost to the grouping: its heading and its short
/// name, with the slash between them, are the whole of it.
pub proof fn law_heading_and_name_are_the_whole(repos: Seq<RepoCard>, i: int)
    requires
        0 <= i < repos.len(),
        grouped(repos).len() > 0,
    ensures
        grouped(repos)[i] + seq!['/'] + short(grouped(repos), repos[i].spec@) == repos[i].spec@,
{
    let spec = repos[i].spec@;
    let n = first_of(spec, '/') as int;
    assert(owners_of(repos)[i].len() > 0);
    lemma_slash(spec);
    assert(spec.take(n) + seq!['/'] + spec.skip(n + 1) =~= spec);
}

proof fn lemma_slash(s: Seq<char>)
    ensures
        first_of(s, '/') <= s.len(),
        first_of(s, '/') < s.len() ==> s[first_of(s, '/') as int] == '/',
    decreases s.len(),
{
    if s.len() > 0 && s[0] != '/' {
        lemma_slash(s.drop_first());
    }
}

/// Which of the dashboard's optional columns this terminal has room for.
///
/// Dropping whole columns rather than letting all nine shrink together: eight
/// columns truncated to six characters each answer nothing.
#[derive(Clone, Copy, PartialEq, Eq, Debug, Structural)]
pub struct Columns {
    pub ran_on: bool,
    pub updated: bool,
    pub recent: bool,
    /// History degrades by degrees rather than all at once, so it is the last
    /// thing to go.
    pub spark_w: usize,
}

/// The width each column appears at.
pub open spec fn columns_for(w: u16) -> Columns {
    Columns {
        ran_on: w >= 120,
        updated: w >= 80,
        recent: w >= 100,
        spark_w: if w >= 170 {
            12
        } else if w >= 150 {
            8
        } else if w >= 100 {
            5
        } else {
            0
        },
    }
}

impl Columns {
    /// The columns a table this wide has room for.
    pub fn for_width(w: u16) -> (c: Columns)
        ensures
            c == columns_for(w),
    {
        if w <= 79 {
            Columns { ran_on: false, updated: false, recent: false, spark_w: 0 }
        } else if w <= 99 {
            Columns { ran_on: false, updated: true, recent: false, spark_w: 0 }
        } else if w <= 119 {
            Columns { ran_on: false, updated: true, recent: true, spark_w: 5 }
        } else if w <= 149 {
            Columns { ran_on: true, updated: true, recent: true, spark_w: 5 }
        } else if w <= 169 {
            Columns { ran_on: true, updated: true, recent: true, spark_w: 8 }
        } else {
            Columns { ran_on: true, updated: true, recent: true, spark_w: 12 }
        }
    }

    /// The optional cells, in column order, keeping only what fits.
    pub fn tail<T: DeepView>(self, ran_on: T, updated: T, recent: T) -> (v: Vec<T>)
        ensures
            v.deep_view() == kept_cells(
                self,
                ran_on.deep_view(),
                updated.deep_view(),
                recent.deep_view(),
            ),
    {
        let mut v: Vec<T> = none();
        if self.ran_on {
            put(&mut v, ran_on);
        }
        if self.updated {
            put(&mut v, updated);
        }
        if self.recent {
            put(&mut v, recent);
        }
        v
    }
}

/// The optional cells that fit, in column order.
pub open spec fn kept_cells<A>(c: Columns, ran_on: A, updated: A, recent: A) -> Seq<A> {
    push_if(push_if(push_if(Seq::empty(), c.ran_on, ran_on), c.updated, updated), c.recent, recent)
}

/// A wider terminal never shows less: no column a narrower one has is missing
/// from it, and its history is no shorter.
pub proof fn law_wider_never_shows_less(w: u16, wider: u16)
    requires
        w <= wider,
    ensures
        columns_for(w).ran_on ==> columns_for(wider).ran_on,
        columns_for(w).updated ==> columns_for(wider).updated,
        columns_for(w).recent ==> columns_for(wider).recent,
        columns_for(w).spark_w <= columns_for(wider).spark_w,
{
}

} // verus!

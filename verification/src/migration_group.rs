//! Migration groups: named namespaces owning migrations and nested groups,
//! consumed through an in-order depth-first extraction.

use vstd::multiset::Multiset;
use vstd::prelude::*;
use vstd::string::*;

use crate::migration::{Migration, MigrationV};
use crate::migration_dependency::{DepV, Dependency};
use crate::migration_tags::{parse_migration_tag, MigrationTags};
use crate::parse_errors::{KindV, ParseErrorKind};
use crate::text::append_line;
use crate::text::push_line;

verus! {

broadcast use vstd::seq::group_seq_axioms, vstd::std_specs::vec::group_vec_axioms;

/// Mathematical image of a `MigrationGroup`.
pub struct GroupV {
    pub name: Seq<char>,
    pub version: Option<Seq<char>>,
    pub description: Seq<char>,
    pub migrations: Seq<MigrationV>,
    pub groups: Seq<GroupV>,
    pub dependencies: Seq<DepV>,
    pub cursor: int,
    pub tags: Seq<MigrationTags>,
    pub nuclear: bool,
}

/// A named namespace owning migrations and nested subgroups; the cursor
/// remembers how far sequential extraction has advanced into the subgroups.
#[derive(Debug)]
pub struct MigrationGroup {
    name: String,
    version: Option<String>,
    description: String,
    migrations: Vec<Migration>,
    groups: Vec<MigrationGroup>,
    dependencies: Vec<Dependency>,
    current_group_index: usize,
    tags: Vec<MigrationTags>,
    nuclear: bool,
}

/// The image of a whole group tree.
pub closed spec fn group_view(g: MigrationGroup) -> GroupV
    decreases g,
{
    GroupV {
        name: g.name@,
        version: match g.version {
            Some(v) => Some(v@),
            None => None,
        },
        description: g.description@,
        migrations: g.migrations@.map_values(|m: Migration| m@),
        groups: groups_view(g.groups@),
        dependencies: g.dependencies@.map_values(|d: Dependency| d@),
        cursor: g.current_group_index as int,
        tags: g.tags@,
        nuclear: g.nuclear,
    }
}

/// The images of a sequence of group trees.
pub closed spec fn groups_view(s: Seq<MigrationGroup>) -> Seq<GroupV>
    decreases s,
{
    if s.len() == 0 {
        Seq::empty()
    } else {
        seq![group_view(s[0])] + groups_view(s.subrange(1, s.len() as int))
    }
}

pub proof fn lemma_groups_view(s: Seq<MigrationGroup>)
    ensures
        groups_view(s).len() == s.len(),
        forall|i: int| 0 <= i < s.len() ==> groups_view(s)[i] == group_view(s[i]),
    decreases s,
{
    if s.len() > 0 {
        lemma_groups_view(s.subrange(1, s.len() as int));
    }
}

pub proof fn lemma_groups_view_push(s: Seq<MigrationGroup>, g: MigrationGroup)
    ensures
        groups_view(s.push(g)) == groups_view(s).push(group_view(g)),
{
    lemma_groups_view(s);
    lemma_groups_view(s.push(g));
    assert forall|j: int| 0 <= j < s.len() + 1 implies groups_view(s.push(g))[j] == groups_view(
        s,
    ).push(group_view(g))[j] by {
        if j < s.len() {
            assert(s.push(g)[j] == s[j]);
        } else {
            assert(s.push(g)[j] == g);
        }
    }
    assert(groups_view(s.push(g)) =~= groups_view(s).push(group_view(g)));
}

pub proof fn lemma_groups_view_drop_last(s: Seq<MigrationGroup>)
    requires
        s.len() > 0,
    ensures
        groups_view(s.drop_last()) == groups_view(s).drop_last(),
{
    lemma_groups_view(s);
    lemma_groups_view(s.drop_last());
    assert forall|j: int| 0 <= j < s.len() - 1 implies groups_view(s.drop_last())[j]
        == groups_view(s).drop_last()[j] by {
        assert(s.drop_last()[j] == s[j]);
    }
    assert(groups_view(s.drop_last()) =~= groups_view(s).drop_last());
}

impl View for MigrationGroup {
    type V = GroupV;

    open spec fn view(&self) -> GroupV {
        group_view(*self)
    }
}

/// A fresh group: only the name is set.
pub open spec fn group_new(name: Seq<char>) -> GroupV {
    GroupV {
        name: name,
        version: None,
        description: Seq::empty(),
        migrations: Seq::empty(),
        groups: Seq::empty(),
        dependencies: Seq::empty(),
        cursor: 0,
        tags: Seq::empty(),
        nuclear: false,
    }
}

// ---------------------------------------------------------------------------
// depth-first extraction
// ---------------------------------------------------------------------------

/// What sequential extraction will still produce from `g`: the directly-owned
/// migrations in reverse insertion order, then each subgroup's extraction in
/// subgroup order, starting at the cursor.
pub open spec fn remaining_extraction(g: GroupV) -> Seq<MigrationV>
    decreases g, 0int,
{
    g.migrations.reverse() + remaining_in_groups(g.groups, g.cursor)
}

/// What extraction will still produce from the subgroups at positions
/// `cur` onward.
pub open spec fn remaining_in_groups(gs: Seq<GroupV>, cur: int) -> Seq<MigrationV>
    decreases gs, gs.len() - cur,
{
    if 0 <= cur < gs.len() {
        remaining_extraction(gs[cur]) + remaining_in_groups(gs, cur + 1)
    } else {
        Seq::empty()
    }
}

/// Every migration owned by the tree, directly-owned ones first in insertion
/// order, then each subgroup's in subgroup order.
pub open spec fn all_migrations(g: GroupV) -> Seq<MigrationV>
    decreases g, 0int,
{
    g.migrations + all_in_groups(g.groups, 0)
}

/// Every migration owned by the subgroups at positions `i` onward.
pub open spec fn all_in_groups(gs: Seq<GroupV>, i: int) -> Seq<MigrationV>
    decreases gs, gs.len() - i,
{
    if 0 <= i < gs.len() {
        all_migrations(gs[i]) + all_in_groups(gs, i + 1)
    } else {
        Seq::empty()
    }
}

/// No extraction has begun anywhere in the tree.
pub open spec fn group_fresh(g: GroupV) -> bool
    decreases g,
{
    g.cursor == 0 && forall|i: int|
        0 <= i < g.groups.len() ==> group_fresh(#[trigger] g.groups[i])
}

/// `remaining_in_groups` reads only the elements at `cur` onward.
proof fn lemma_remaining_congruence(a: Seq<GroupV>, b: Seq<GroupV>, cur: int)
    requires
        a.len() == b.len(),
        forall|j: int| cur <= j < a.len() ==> a[j] == b[j],
    ensures
        remaining_in_groups(a, cur) == remaining_in_groups(b, cur),
    decreases a.len() - cur,
{
    if 0 <= cur < a.len() {
        lemma_remaining_congruence(a, b, cur + 1);
    }
}

/// Reversal preserves a sequence's multiset of elements.
proof fn lemma_reverse_multiset<A>(s: Seq<A>)
    ensures
        s.reverse().to_multiset() == s.to_multiset(),
    decreases s.len(),
{
    broadcast use vstd::seq_lib::group_to_multiset_ensures;
    broadcast use vstd::multiset::group_multiset_axioms;

    if s.len() == 0 {
        assert(s.reverse() =~= s);
    } else {
        let s0 = s.drop_last();
        let l = s.last();
        assert(s =~= s0.push(l));
        assert(s.reverse() =~= seq![l] + s0.reverse());
        vstd::seq_lib::lemma_multiset_commutative(seq![l], s0.reverse());
        lemma_reverse_multiset(s0);
        assert(seq![l] =~= Seq::<A>::empty().push(l));
        assert(Seq::<A>::empty().to_multiset() =~= Multiset::<A>::empty());
        assert(Multiset::<A>::empty().insert(l).add(s0.to_multiset()) =~= s0.to_multiset().insert(
            l,
        ));
        assert(s0.push(l).to_multiset() =~= s0.to_multiset().insert(l));
    }
}

/// Law: on a tree where extraction has not begun, the depth-first extraction
/// yields exactly the migrations the tree owns — the same multiset, and a
/// count equal to the sum of the local and nested counts.
pub proof fn lemma_extraction_complete(g: GroupV)
    requires
        group_fresh(g),
    ensures
        remaining_extraction(g).to_multiset() == all_migrations(g).to_multiset(),
        remaining_extraction(g).len() == all_migrations(g).len(),
    decreases g, 1int,
{
    broadcast use vstd::seq_lib::group_to_multiset_ensures;
    broadcast use vstd::multiset::group_multiset_axioms;

    lemma_reverse_multiset(g.migrations);
    lemma_extraction_in_groups_from(g.groups, 0);
    vstd::seq_lib::lemma_multiset_commutative(
        g.migrations.reverse(),
        remaining_in_groups(g.groups, 0),
    );
    vstd::seq_lib::lemma_multiset_commutative(g.migrations, all_in_groups(g.groups, 0));
}

/// The subgroup part of `lemma_extraction_complete`, one suffix at a time.
proof fn lemma_extraction_in_groups_from(gs: Seq<GroupV>, i: int)
    requires
        forall|j: int| 0 <= j < gs.len() ==> group_fresh(#[trigger] gs[j]),
    ensures
        remaining_in_groups(gs, i).to_multiset() == all_in_groups(gs, i).to_multiset(),
        remaining_in_groups(gs, i).len() == all_in_groups(gs, i).len(),
    decreases gs, gs.len() - i,
{
    if 0 <= i < gs.len() {
        lemma_extraction_complete(gs[i]);
        lemma_extraction_in_groups_from(gs, i + 1);
        vstd::seq_lib::lemma_multiset_commutative(
            remaining_extraction(gs[i]),
            remaining_in_groups(gs, i + 1),
        );
        vstd::seq_lib::lemma_multiset_commutative(all_migrations(gs[i]), all_in_groups(gs, i + 1));
        broadcast use vstd::multiset::group_multiset_axioms;

        assert(remaining_in_groups(gs, i).to_multiset() =~= all_in_groups(gs, i).to_multiset());
    }
}

/// The fields extraction never touches.
pub open spec fn extraction_frame(a: GroupV, b: GroupV) -> bool {
    b.name == a.name && b.version == a.version && b.description == a.description && b.dependencies
        == a.dependencies && b.tags == a.tags && b.nuclear == a.nuclear && b.groups.len()
        == a.groups.len()
}

impl MigrationGroup {
    /// A fresh group with the given name.
    pub fn new(name: &str) -> (r: MigrationGroup)
        ensures
            r@ == group_new(name@),
    {
        let r = MigrationGroup {
            name: name.to_owned(),
            version: None,
            description: String::new(),
            migrations: Vec::new(),
            groups: Vec::new(),
            dependencies: Vec::new(),
            current_group_index: 0,
            tags: Vec::new(),
            nuclear: false,
        };
        proof {
            assert(r@.migrations =~= group_new(name@).migrations);
            assert(r@.dependencies =~= group_new(name@).dependencies);
        }
        r
    }

    /// Parse one tag token and add it to the tag set.
    pub fn add_tag(&mut self, unparsed_tag: &str) -> (r: Result<bool, ParseErrorKind>)
        ensures
            match r {
                Ok(b) => parse_migration_tag(unparsed_tag@) matches Ok(t) && final(self)@ == (
                GroupV {
                    tags: crate::migration::tag_insert(old(self)@.tags, t),
                    ..old(self)@
                }) && b == !old(self)@.tags.contains(t),
                Err(k) => parse_migration_tag(unparsed_tag@) == Err::<MigrationTags, KindV>(k@)
                    && *final(self) == *old(self),
            },
    {
        let tag = match MigrationTags::try_from(unparsed_tag) {
            Ok(t) => t,
            Err(k) => {
                return Err(k);
            },
        };
        if crate::migration::contains_tag(&self.tags, tag) {
            Ok(false)
        } else {
            self.tags.push(tag);
            Ok(true)
        }
    }

    pub fn name(&self) -> (r: &str)
        ensures
            r@ == self@.name,
    {
        self.name.as_str()
    }

    pub fn version(&self) -> (r: Option<&str>)
        ensures
            match r {
                Some(v) => self@.version == Some(v@),
                None => self@.version is None,
            },
    {
        match self.version {
            Some(ref v) => Some(v.as_str()),
            None => None,
        }
    }

    pub fn description(&self) -> (r: &str)
        ensures
            r@ == self@.description,
    {
        self.description.as_str()
    }

    pub fn migrations(&self) -> (r: &Vec<Migration>)
        ensures
            r@.map_values(|m: Migration| m@) == self@.migrations,
    {
        &self.migrations
    }

    pub fn groups(&self) -> (r: &Vec<MigrationGroup>)
        ensures
            groups_view(r@) == self@.groups,
    {
        &self.groups
    }

    pub fn dependencies(&self) -> (r: &Vec<Dependency>)
        ensures
            r@.map_values(|d: Dependency| d@) == self@.dependencies,
    {
        &self.dependencies
    }

    /// Set the semantic version string.
    pub fn set_version(&mut self, version: &str)
        ensures
            final(self)@ == (GroupV { version: Some(version@), ..old(self)@ }),
    {
        self.version = Some(version.to_owned());
    }

    /// Append one line of description text.
    pub fn add_description(&mut self, description: &str)
        ensures
            final(self)@ == (GroupV {
                description: append_line(old(self)@.description, description@),
                ..old(self)@
            }),
    {
        push_line(&mut self.description, description);
    }

    /// File a finished migration into this group.
    pub fn add_migration(&mut self, migration: Migration)
        ensures
            final(self)@ == (GroupV {
                migrations: old(self)@.migrations.push(migration@),
                ..old(self)@
            }),
    {
        let ghost before = self@.migrations;
        self.migrations.push(migration);
        proof {
            assert(self@.migrations =~= before.push(self.migrations@.last()@));
        }
    }

    /// File a finished subgroup into this group.
    pub fn add_group(&mut self, group: MigrationGroup)
        ensures
            final(self)@ == (GroupV { groups: old(self)@.groups.push(group@), ..old(self)@ }),
    {
        let ghost before = self.groups@;
        let ghost gv = group@;
        self.groups.push(group);
        proof {
            lemma_groups_view(before);
            lemma_groups_view(self.groups@);
            assert(self.groups@.len() == before.len() + 1);
            assert forall|i: int| 0 <= i < self.groups@.len() implies groups_view(self.groups@)[i]
                == groups_view(before).push(gv)[i] by {
            }
            assert(groups_view(self.groups@) =~= groups_view(before).push(gv));
        }
    }

    /// Record a dependency.
    pub fn add_dependency(&mut self, dependency: Dependency)
        ensures
            final(self)@ == (GroupV {
                dependencies: old(self)@.dependencies.push(dependency@),
                ..old(self)@
            }),
    {
        let ghost before = self@.dependencies;
        self.dependencies.push(dependency);
        proof {
            assert(self@.dependencies =~= before.push(self.dependencies@.last()@));
        }
    }

    /// Mark the group as destructive.
    pub fn set_nuclear_true(&mut self)
        ensures
            final(self)@ == (GroupV { nuclear: true, ..old(self)@ }),
    {
        self.nuclear = true;
    }

    pub fn tags(&self) -> (r: &Vec<MigrationTags>)
        ensures
            r@ == self@.tags,
    {
        &self.tags
    }

    /// Was the group marked destructive?
    pub fn nuclear(&self) -> (r: bool)
        ensures
            r == self@.nuclear,
    {
        self.nuclear
    }

    /// One step of the destructive depth-first extraction: the next migration
    /// in extraction order, or `None` once the tree is exhausted.
    pub fn next(&mut self) -> (r: Option<Migration>)
        ensures
            match r {
                Some(m) => remaining_extraction(old(self)@).len() > 0 && m@
                    == remaining_extraction(old(self)@)[0] && remaining_extraction(final(self)@)
                    == remaining_extraction(old(self)@).drop_first() && extraction_frame(
                    old(self)@,
                    final(self)@,
                ),
                None => remaining_extraction(old(self)@).len() == 0 && remaining_extraction(
                    final(self)@,
                ).len() == 0 && extraction_frame(old(self)@, final(self)@),
            },
        decreases *old(self),
    {
        let ghost r_all = remaining_extraction(old(self)@);
        let popped = self.migrations.pop();
        match popped {
            Some(m) => {
                proof {
                    let rev = old(self)@.migrations.reverse();
                    let rest = remaining_in_groups(old(self)@.groups, old(self)@.cursor);
                    assert(old(self)@.migrations.len() > 0);
                    assert(m@ == old(self)@.migrations.last());
                    assert(rev[0] == m@);
                    assert(r_all[0] == m@);
                    assert(self@.migrations =~= old(self)@.migrations.drop_last());
                    assert(self@.migrations.reverse() =~= rev.drop_first());
                    assert(self@.groups == old(self)@.groups);
                    assert(remaining_extraction(self@) =~= r_all.drop_first());
                }
                return Some(m);
            },
            None => {},
        }
        proof {
            assert(old(self)@.migrations.len() == 0);
            assert(old(self)@.migrations.reverse() =~= Seq::<MigrationV>::empty());
            assert(remaining_extraction(self@) =~= r_all);
        }
        loop
            invariant
                self.migrations@.len() == 0,
                remaining_extraction(self@) == r_all,
                r_all == remaining_extraction(old(self)@),
                extraction_frame(old(self)@, self@),
                forall|j: int|
                    self.current_group_index <= j < self.groups@.len() ==> self.groups@[j] == old(
                        self,
                    ).groups@[j],
                old(self).groups@.len() == self.groups@.len(),
            decreases self.groups@.len() - self.current_group_index,
        {
            let idx = self.current_group_index;
            if idx >= self.groups.len() {
                proof {
                    lemma_groups_view(self.groups@);
                    assert(self@.groups.len() == self.groups@.len());
                    assert(remaining_in_groups(self@.groups, idx as int) =~= Seq::<
                        MigrationV,
                    >::empty());
                    assert(self@.migrations.reverse() =~= Seq::<MigrationV>::empty());
                    assert(remaining_extraction(self@).len() == 0);
                }
                return None;
            }
            let ghost pre = *self;
            let ghost gv = pre@.groups;
            proof {
                lemma_groups_view(pre.groups@);
                assert(gv[idx as int] == group_view(pre.groups@[idx as int]));
                assert(remaining_in_groups(gv, idx as int) == remaining_extraction(
                    gv[idx as int],
                ) + remaining_in_groups(gv, idx as int + 1));
            }
            let mut sub = self.groups.remove(idx);
            proof {
                assert(sub == old(self).groups@[idx as int]);
                assert(decreases_to!(old(self).groups@ => old(self).groups@[idx as int]));
                assert(decreases_to!(*old(self) => old(self).groups));
                assert(decreases_to!(old(self).groups => old(self).groups@));
            }
            let ghost sub_pre = sub@;
            proof {
                assert(sub_pre == gv[idx as int]);
                assert(remaining_extraction(pre@) =~= remaining_in_groups(gv, idx as int));
                assert(r_all == remaining_extraction(sub_pre) + remaining_in_groups(
                    gv,
                    idx as int + 1,
                ));
            }
            let r = sub.next();
            let ghost sub_post = sub@;
            self.groups.insert(idx, sub);
            proof {
                assert(self.groups@ =~= pre.groups@.update(idx as int, self.groups@[idx as int]));
                lemma_groups_view(self.groups@);
                assert(groups_view(self.groups@).len() == gv.len());
                assert(group_view(self.groups@[idx as int]) == sub_post);
                assert forall|j: int|
                    0 <= j < gv.len() && j != idx implies groups_view(self.groups@)[j]
                    == gv[j] by {
                    assert(self.groups@[j] == pre.groups@[j]);
                }
                lemma_remaining_congruence(groups_view(self.groups@), gv, idx as int + 1);
                assert(self@.migrations.reverse() =~= Seq::<MigrationV>::empty());
                assert(remaining_extraction(self@) =~= remaining_in_groups(
                    groups_view(self.groups@),
                    idx as int,
                ));
                assert(remaining_extraction(self@) =~= remaining_extraction(sub_post)
                    + remaining_in_groups(gv, idx as int + 1));
            }
            match r {
                Some(m) => {
                    proof {
                        assert(remaining_extraction(sub_pre).len() > 0);
                        assert(r_all[0] == remaining_extraction(sub_pre)[0]);
                        assert(remaining_extraction(self@) =~= r_all.drop_first());
                    }
                    return Some(m);
                },
                None => {
                    proof {
                        assert(remaining_extraction(sub_pre).len() == 0);
                        assert(remaining_extraction(sub_pre) =~= Seq::<MigrationV>::empty());
                        assert(remaining_extraction(self@) =~= remaining_in_groups(
                            gv,
                            idx as int + 1,
                        ));
                        assert(remaining_in_groups(gv, idx as int + 1) =~= r_all);
                    }
                    self.current_group_index = idx + 1;
                    proof {
                        assert(self@.migrations.reverse() =~= Seq::<MigrationV>::empty());
                        assert(remaining_extraction(self@) =~= remaining_in_groups(
                            groups_view(self.groups@),
                            idx as int + 1,
                        ));
                        assert(remaining_extraction(self@) == r_all);
                    }
                },
            }
        }
    }

    /// How many migrations the tree owns in total, local and nested.
    pub fn count(&self) -> (r: usize)
        requires
            all_migrations(self@).len() <= usize::MAX,
        ensures
            r == all_migrations(self@).len(),
        decreases *self,
    {
        let ghost gv = self@.groups;
        proof {
            lemma_groups_view(self.groups@);
        }
        let mut total: usize = self.migrations.len();
        let mut i: usize = 0;
        while i < self.groups.len()
            invariant
                i <= self.groups@.len(),
                gv == self@.groups,
                gv == groups_view(self.groups@),
                gv.len() == self.groups@.len(),
                forall|j: int| 0 <= j < gv.len() ==> gv[j] == group_view(self.groups@[j]),
                all_migrations(self@).len() <= usize::MAX,
                total + all_in_groups(gv, i as int).len() == all_migrations(self@).len(),
            decreases self.groups@.len() - i,
        {
            proof {
                assert(decreases_to!(self.groups@ => self.groups@[i as int]));
                assert(decreases_to!(*self => self.groups));
                assert(decreases_to!(self.groups => self.groups@));
                assert(all_in_groups(gv, i as int) == all_migrations(gv[i as int]) + all_in_groups(
                    gv,
                    i as int + 1,
                ));
            }
            let c = self.groups[i].count();
            total = total + c;
            i += 1;
        }
        proof {
            assert(all_in_groups(gv, i as int).len() == 0);
        }
        total
    }
}

} // verus!

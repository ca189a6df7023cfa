//! Project rows: name-keyed applications owned by an account, each with an
//! optional account association, base-build allowance list, pinned source
//! version and NFT mint transaction.

use vstd::prelude::*;

use crate::database::{Database, StoreError};

verus! {

/// A signed association between a project and an external account.
#[derive(Debug)]
pub struct AccountAssociation {
    pub header: String,
    pub payload: String,
    pub signature: String,
}

/// The abstract value of an account association.
pub ghost struct AccountAssociationView {
    pub header: Seq<char>,
    pub payload: Seq<char>,
    pub signature: Seq<char>,
}

impl View for AccountAssociation {
    type V = AccountAssociationView;

    open spec fn view(&self) -> AccountAssociationView {
        AccountAssociationView {
            header: self.header@,
            payload: self.payload@,
            signature: self.signature@,
        }
    }
}

impl AccountAssociation {
    /// A copy with the same value.
    pub fn duplicate(&self) -> (r: Self)
        ensures
            r@ == self@,
    {
        broadcast use crate::database::group_db_view;
        AccountAssociation {
            header: self.header.clone(),
            payload: self.payload.clone(),
            signature: self.signature.clone(),
        }
    }
}

/// The base-build configuration of a project: the addresses allowed to
/// build on it.
#[derive(Debug)]
pub struct BaseBuild {
    pub allowed_addresses: Vec<String>,
}

/// The abstract value of a base-build configuration.
pub ghost struct BaseBuildView {
    pub allowed_addresses: Seq<Seq<char>>,
}

impl View for BaseBuild {
    type V = BaseBuildView;

    open spec fn view(&self) -> BaseBuildView {
        BaseBuildView { allowed_addresses: self.allowed_addresses@.map_values(|s: String| s@) }
    }
}

impl BaseBuild {
    /// A copy with the same value.
    pub fn duplicate(&self) -> (r: Self)
        ensures
            r@ == self@,
    {
        broadcast use crate::database::group_db_view;
        let mut addresses: Vec<String> = Vec::new();
        let n = self.allowed_addresses.len();
        let mut i: usize = 0;
        while i < n
            invariant
                n == self.allowed_addresses@.len(),
                0 <= i <= n,
                addresses@.len() == i,
                forall|j: int| 0 <= j < i ==> (#[trigger] addresses@[j])@
                    == self.allowed_addresses@[j]@,
            decreases n - i,
        {
            addresses.push(self.allowed_addresses[i].clone());
            i = i + 1;
        }
        proof {
            assert(addresses@.map_values(|s: String| s@) =~= self.allowed_addresses@.map_values(
                |s: String| s@,
            ));
        }
        BaseBuild { allowed_addresses: addresses }
    }
}

/// A project row.
#[derive(Debug)]
pub struct DatabaseProject {
    pub id: i32,
    pub name: String,
    pub owner: String,
    pub account_association: Option<AccountAssociation>,
    pub base_build: Option<BaseBuild>,
    pub version: Option<String>,
    pub nft_mint: Option<String>,
}

/// The abstract value of a project row.
pub ghost struct ProjectView {
    pub id: int,
    pub name: Seq<char>,
    pub owner: Seq<char>,
    pub account_association: Option<AccountAssociationView>,
    pub base_build: Option<BaseBuildView>,
    pub version: Option<Seq<char>>,
    pub nft_mint: Option<Seq<char>>,
}

/// The abstract value of an optional string.
pub open spec fn opt_str_view(o: Option<String>) -> Option<Seq<char>> {
    match o {
        Some(s) => Some(s@),
        None => None,
    }
}

impl View for DatabaseProject {
    type V = ProjectView;

    open spec fn view(&self) -> ProjectView {
        ProjectView {
            id: self.id as int,
            name: self.name@,
            owner: self.owner@,
            account_association: match self.account_association {
                Some(a) => Some(a@),
                None => None,
            },
            base_build: match self.base_build {
                Some(b) => Some(b@),
                None => None,
            },
            version: opt_str_view(self.version),
            nft_mint: opt_str_view(self.nft_mint),
        }
    }
}

/// A copy of an optional string with the same value.
pub fn duplicate_opt_string(o: &Option<String>) -> (r: Option<String>)
    ensures
        opt_str_view(r) == opt_str_view(*o),
        r is Some <==> *o is Some,
{
    broadcast use crate::database::group_db_view;
    match o {
        Some(s) => Some(s.clone()),
        None => None,
    }
}

impl DatabaseProject {
    /// A copy with the same value.
    pub fn duplicate(&self) -> (r: Self)
        ensures
            r@ == self@,
    {
        broadcast use crate::database::group_db_view;
        DatabaseProject {
            id: self.id,
            name: self.name.clone(),
            owner: self.owner.clone(),
            account_association: match &self.account_association {
                Some(a) => Some(a.duplicate()),
                None => None,
            },
            base_build: match &self.base_build {
                Some(b) => Some(b.duplicate()),
                None => None,
            },
            version: duplicate_opt_string(&self.version),
            nft_mint: duplicate_opt_string(&self.nft_mint),
        }
    }
}

/// There is a project row with the given name.
pub open spec fn project_named(s: Seq<ProjectView>, name: Seq<char>) -> bool {
    exists|i: int| 0 <= i < s.len() && (#[trigger] s[i]).name == name
}

impl DatabaseProject {
    /// All project rows.
    pub fn get_all(db: &Database) -> (r: Vec<DatabaseProject>)
        ensures
            r@.map_values(|p: DatabaseProject| p@) == db@.projects,
    {
        broadcast use crate::database::group_db_view;
        let n = db.projects.len();
        let mut out: Vec<DatabaseProject> = Vec::new();
        let mut i: usize = 0;
        while i < n
            invariant
                n == db.projects@.len(),
                0 <= i <= n,
                out@.len() == i,
                forall|j: int| 0 <= j < i ==> (#[trigger] out@[j])@ == db@.projects[j],
            decreases n - i,
        {
            out.push(db.projects[i].duplicate());
            i = i + 1;
        }
        proof {
            assert(out@.map_values(|p: DatabaseProject| p@) =~= db@.projects);
        }
        out
    }

    /// The number of project rows.
    pub fn get_count(db: &Database) -> (r: i64)
        requires
            db.wf(),
        ensures
            r == db@.projects.len(),
    {
        broadcast use crate::database::group_db_view;
        proof {
            crate::database::lemma_table_len(
                db@.projects.map_values(|p: ProjectView| p.id),
                db@.next_project_id,
            );
        }
        db.projects.len() as i64
    }

    /// All projects owned by the given account, in id order.
    pub fn get_all_by_owner(db: &Database, owner: &str) -> (r: Vec<DatabaseProject>)
        ensures
            r@.map_values(|p: DatabaseProject| p@) == db@.projects.filter(
                |p: ProjectView| p.owner == owner@,
            ),
    {
        broadcast use crate::database::group_db_view;
        let ghost f = |p: ProjectView| p.owner == owner@;
        let n = db.projects.len();
        let mut out: Vec<DatabaseProject> = Vec::new();
        let ghost mut acc: Seq<ProjectView> = Seq::empty();
        let mut i: usize = 0;
        proof {
            reveal(Seq::filter);
            assert(db@.projects.subrange(0, 0) =~= Seq::<ProjectView>::empty());
            assert(acc == db@.projects.subrange(0, 0).filter(f));
        }
        while i < n
            invariant
                n == db.projects@.len(),
                f == (|p: ProjectView| p.owner == owner@),
                0 <= i <= n,
                acc == db@.projects.subrange(0, i as int).filter(f),
                out@.len() == acc.len(),
                forall|j: int| 0 <= j < acc.len() ==> (#[trigger] out@[j])@ == acc[j],
            decreases n - i,
        {
            proof {
                reveal(Seq::filter);
                let pre = db@.projects.subrange(0, i + 1);
                assert(pre.drop_last() =~= db@.projects.subrange(0, i as int));
                assert(pre.last() == db@.projects[i as int]);
            }
            if crate::textutil::str_eq(db.projects[i].owner.as_str(), owner) {
                out.push(db.projects[i].duplicate());
                proof {
                    assert(f(db@.projects[i as int]));
                    acc = acc.push(db@.projects[i as int]);
                }
            } else {
                proof {
                    assert(!f(db@.projects[i as int]));
                }
            }
            i = i + 1;
        }
        proof {
            assert(db@.projects.subrange(0, db@.projects.len() as int) =~= db@.projects);
            assert(out@.map_values(|p: DatabaseProject| p@) =~= acc);
        }
        out
    }

    /// The project with the given name, if any.
    pub fn get_by_name(db: &Database, name: &str) -> (r: Option<DatabaseProject>)
        requires
            db.wf(),
        ensures
            r is Some <==> project_named(db@.projects, name@),
            r matches Some(p) ==> db@.projects.contains(p@) && p@.name == name@,
    {
        broadcast use crate::database::group_db_view;
        let n = db.projects.len();
        let mut i: usize = 0;
        while i < n
            invariant
                n == db.projects@.len(),
                0 <= i <= n,
                forall|j: int| 0 <= j < i ==> (#[trigger] db@.projects[j]).name != name@,
            decreases n - i,
        {
            if crate::textutil::str_eq(db.projects[i].name.as_str(), name) {
                let found = db.projects[i].duplicate();
                proof {
                    assert(db@.projects[i as int] == found@);
                }
                return Some(found);
            }
            i = i + 1;
        }
        None
    }

    /// The project with the given id, if any.
    pub fn get_by_id(db: &Database, id: i32) -> (r: Option<DatabaseProject>)
        requires
            db.wf(),
        ensures
            r is Some <==> exists|i: int|
                0 <= i < db@.projects.len() && (#[trigger] db@.projects[i]).id == id,
            r matches Some(p) ==> db@.projects.contains(p@) && p@.id == id,
    {
        broadcast use crate::database::group_db_view;
        let n = db.projects.len();
        let mut i: usize = 0;
        while i < n
            invariant
                n == db.projects@.len(),
                0 <= i <= n,
                forall|j: int| 0 <= j < i ==> (#[trigger] db@.projects[j]).id != id,
            decreases n - i,
        {
            if db.projects[i].id == id {
                let found = db.projects[i].duplicate();
                proof {
                    assert(db@.projects[i as int] == found@);
                }
                return Some(found);
            }
            i = i + 1;
        }
        None
    }

    /// The unminted project with the least id, if any.
    pub fn get_next_unminted(db: &Database) -> (r: Option<DatabaseProject>)
        requires
            db.wf(),
        ensures
            r is Some <==> exists|i: int|
                0 <= i < db@.projects.len() && (#[trigger] db@.projects[i]).nft_mint is None,
            r matches Some(p) ==> {
                &&& db@.projects.contains(p@)
                &&& p@.nft_mint is None
                &&& forall|j: int|
                    0 <= j < db@.projects.len() && (#[trigger] db@.projects[j]).nft_mint is None
                        ==> p@.id <= db@.projects[j].id
            },
    {
        broadcast use crate::database::group_db_view;
        let n = db.projects.len();
        let mut i: usize = 0;
        while i < n
            invariant
                db.wf(),
                n == db.projects@.len(),
                0 <= i <= n,
                forall|j: int| 0 <= j < i ==> (#[trigger] db@.projects[j]).nft_mint is Some,
            decreases n - i,
        {
            if db.projects[i].nft_mint.is_none() {
                let found = db.projects[i].duplicate();
                proof {
                    assert(db@.projects[i as int] == found@);
                    assert forall|j: int|
                        0 <= j < db@.projects.len() && (#[trigger] db@.projects[j]).nft_mint is None
                            implies found@.id <= db@.projects[j].id by {
                        if j < i as int {
                        } else if j > i as int {
                            assert(db@.projects[i as int].id < db@.projects[j].id);
                        }
                    }
                }
                return Some(found);
            }
            i = i + 1;
        }
        None
    }

    /// Inserts the project, assigning it the next id. Rejected when a
    /// project with the same name already exists.
    pub fn insert(&mut self, db: &mut Database) -> (r: Result<(), StoreError>)
        requires
            old(db).wf(),
            old(db)@.next_project_id < i32::MAX,
        ensures
            final(db).wf(),
            project_named(old(db)@.projects, old(self)@.name) ==> {
                &&& r == Err::<(), StoreError>(StoreError::Duplicate)
                &&& final(db)@ == old(db)@
                &&& final(self)@ == old(self)@
            },
            !project_named(old(db)@.projects, old(self)@.name) ==> {
                &&& r == Ok::<(), StoreError>(())
                &&& final(self)@ == (ProjectView { id: old(db)@.next_project_id, ..old(self)@ })
                &&& final(db)@.projects == old(db)@.projects.push(final(self)@)
                &&& final(db)@.next_project_id == old(db)@.next_project_id + 1
                &&& old(db)@.same_but_projects(final(db)@)
            },
    {
        broadcast use crate::database::group_db_view;
        let n = db.projects.len();
        let mut i: usize = 0;
        while i < n
            invariant
                old(db).wf(),
                n == db.projects@.len(),
                0 <= i <= n,
                db@ == old(db)@,
                *self == *old(self),
                forall|j: int| 0 <= j < i ==> (#[trigger] db@.projects[j]).name != self@.name,
            decreases n - i,
        {
            if db.projects[i].name == self.name {
                proof {
                    assert(db@.projects[i as int].name == self@.name);
                    assert(project_named(db@.projects, self@.name));
                }
                return Err(StoreError::Duplicate);
            }
            i = i + 1;
        }
        self.id = db.next_project_id;
        db.next_project_id = db.next_project_id + 1;
        db.projects.push(self.duplicate());
        proof {
            let post = db@.projects;
            let pre = old(db)@.projects;
            assert(post =~= pre.push(self@));
            assert forall|x: int, y: int| 0 <= x < y < post.len() implies post[x].id < post[y].id by {
                if y < pre.len() {
                } else {
                    assert(post[y].id == old(db)@.next_project_id);
                }
            }
        }
        Ok(())
    }

    /// Rewrites the owner of the row with this project's name, and of this
    /// copy.
    pub fn update_owner(&mut self, db: &mut Database, owner: String)
        requires
            old(db).wf(),
        ensures
            final(db).wf(),
            final(self)@ == (ProjectView { owner: owner@, ..old(self)@ }),
            final(db)@.projects.len() == old(db)@.projects.len(),
            forall|i: int|
                0 <= i < old(db)@.projects.len() ==> final(db)@.projects[i] == (
                if old(db)@.projects[i].name == old(self)@.name {
                    ProjectView { owner: owner@, ..old(db)@.projects[i] }
                } else {
                    old(db)@.projects[i]
                }),
            final(db)@.next_project_id == old(db)@.next_project_id,
            old(db)@.same_but_projects(final(db)@),
    {
        broadcast use crate::database::group_db_view;
        let n = db.projects.len();
        let mut i: usize = 0;
        while i < n
            invariant
                old(db).wf(),
                n == db.projects@.len(),
                0 <= i <= n,
                db@ == old(db)@,
                *self == *old(self),
                forall|j: int| 0 <= j < i ==> (#[trigger] db@.projects[j]).name != self@.name,
            decreases n - i,
        {
            if db.projects[i].name == self.name {
                db.projects[i].owner = owner.clone();
                proof {
                    assert(db@.projects =~= old(db)@.projects.update(
                        i as int,
                        ProjectView { owner: owner@, ..old(db)@.projects[i as int] },
                    ));
                }
                self.owner = owner;
                return ;
            }
            i = i + 1;
        }
        self.owner = owner;
    }

    /// Rewrites the account association of the row with this project's
    /// name, and of this copy.
    pub fn update_account_association(&mut self, db: &mut Database, account_association: AccountAssociation)
        requires
            old(db).wf(),
        ensures
            final(db).wf(),
            final(self)@ == (ProjectView {
                account_association: Some(account_association@),
                ..old(self)@
            }),
            final(db)@.projects.len() == old(db)@.projects.len(),
            forall|i: int|
                0 <= i < old(db)@.projects.len() ==> final(db)@.projects[i] == (
                if old(db)@.projects[i].name == old(self)@.name {
                    ProjectView {
                        account_association: Some(account_association@),
                        ..old(db)@.projects[i]
                    }
                } else {
                    old(db)@.projects[i]
                }),
            final(db)@.next_project_id == old(db)@.next_project_id,
            old(db)@.same_but_projects(final(db)@),
    {
        broadcast use crate::database::group_db_view;
        let n = db.projects.len();
        let mut i: usize = 0;
        while i < n
            invariant
                old(db).wf(),
                n == db.projects@.len(),
                0 <= i <= n,
                db@ == old(db)@,
                *self == *old(self),
                forall|j: int| 0 <= j < i ==> (#[trigger] db@.projects[j]).name != self@.name,
            decreases n - i,
        {
            if db.projects[i].name == self.name {
                db.projects[i].account_association = Some(account_association.duplicate());
                proof {
                    assert(db@.projects =~= old(db)@.projects.update(
                        i as int,
                        ProjectView {
                            account_association: Some(account_association@),
                            ..old(db)@.projects[i as int]
                        },
                    ));
                }
                self.account_association = Some(account_association);
                return ;
            }
            i = i + 1;
        }
        self.account_association = Some(account_association);
    }

    /// Rewrites the base build of the row with this project's name, and of
    /// this copy.
    pub fn update_base_build(&mut self, db: &mut Database, base_build: BaseBuild)
        requires
            old(db).wf(),
        ensures
            final(db).wf(),
            final(self)@ == (ProjectView { base_build: Some(base_build@), ..old(self)@ }),
            final(db)@.projects.len() == old(db)@.projects.len(),
            forall|i: int|
                0 <= i < old(db)@.projects.len() ==> final(db)@.projects[i] == (
                if old(db)@.projects[i].name == old(self)@.name {
                    ProjectView { base_build: Some(base_build@), ..old(db)@.projects[i] }
                } else {
                    old(db)@.projects[i]
                }),
            final(db)@.next_project_id == old(db)@.next_project_id,
            old(db)@.same_but_projects(final(db)@),
    {
        broadcast use crate::database::group_db_view;
        let n = db.projects.len();
        let mut i: usize = 0;
        while i < n
            invariant
                old(db).wf(),
                n == db.projects@.len(),
                0 <= i <= n,
                db@ == old(db)@,
                *self == *old(self),
                forall|j: int| 0 <= j < i ==> (#[trigger] db@.projects[j]).name != self@.name,
            decreases n - i,
        {
            if db.projects[i].name == self.name {
                db.projects[i].base_build = Some(base_build.duplicate());
                proof {
                    assert(db@.projects =~= old(db)@.projects.update(
                        i as int,
                        ProjectView { base_build: Some(base_build@), ..old(db)@.projects[i as int] },
                    ));
                }
                self.base_build = Some(base_build);
                return ;
            }
            i = i + 1;
        }
        self.base_build = Some(base_build);
    }

    /// Rewrites the pinned version of the row with this project's name, and
    /// of this copy.
    pub fn update_version(&mut self, db: &mut Database, version: Option<String>)
        requires
            old(db).wf(),
        ensures
            final(db).wf(),
            final(self)@ == (ProjectView { version: opt_str_view(version), ..old(self)@ }),
            final(db)@.projects.len() == old(db)@.projects.len(),
            forall|i: int|
                0 <= i < old(db)@.projects.len() ==> final(db)@.projects[i] == (
                if old(db)@.projects[i].name == old(self)@.name {
                    ProjectView { version: opt_str_view(version), ..old(db)@.projects[i] }
                } else {
                    old(db)@.projects[i]
                }),
            final(db)@.next_project_id == old(db)@.next_project_id,
            old(db)@.same_but_projects(final(db)@),
    {
        broadcast use crate::database::group_db_view;
        let n = db.projects.len();
        let mut i: usize = 0;
        while i < n
            invariant
                old(db).wf(),
                n == db.projects@.len(),
                0 <= i <= n,
                db@ == old(db)@,
                *self == *old(self),
                forall|j: int| 0 <= j < i ==> (#[trigger] db@.projects[j]).name != self@.name,
            decreases n - i,
        {
            if db.projects[i].name == self.name {
                db.projects[i].version = duplicate_opt_string(&version);
                proof {
                    assert(db@.projects =~= old(db)@.projects.update(
                        i as int,
                        ProjectView {
                            version: opt_str_view(version),
                            ..old(db)@.projects[i as int]
                        },
                    ));
                }
                self.version = version;
                return ;
            }
            i = i + 1;
        }
        self.version = version;
    }

    /// Rewrites the NFT mint transaction of the row with this project's
    /// name, and of this copy.
    pub fn update_nft_mint(&mut self, db: &mut Database, nft_mint: Option<String>)
        requires
            old(db).wf(),
        ensures
            final(db).wf(),
            final(self)@ == (ProjectView { nft_mint: opt_str_view(nft_mint), ..old(self)@ }),
            final(db)@.projects.len() == old(db)@.projects.len(),
            forall|i: int|
                0 <= i < old(db)@.projects.len() ==> final(db)@.projects[i] == (
                if old(db)@.projects[i].name == old(self)@.name {
                    ProjectView { nft_mint: opt_str_view(nft_mint), ..old(db)@.projects[i] }
                } else {
                    old(db)@.projects[i]
                }),
            final(db)@.next_project_id == old(db)@.next_project_id,
            old(db)@.same_but_projects(final(db)@),
    {
        broadcast use crate::database::group_db_view;
        let n = db.projects.len();
        let mut i: usize = 0;
        while i < n
            invariant
                old(db).wf(),
                n == db.projects@.len(),
                0 <= i <= n,
                db@ == old(db)@,
                *self == *old(self),
                forall|j: int| 0 <= j < i ==> (#[trigger] db@.projects[j]).name != self@.name,
            decreases n - i,
        {
            if db.projects[i].name == self.name {
                db.projects[i].nft_mint = duplicate_opt_string(&nft_mint);
                proof {
                    assert(db@.projects =~= old(db)@.projects.update(
                        i as int,
                        ProjectView {
                            nft_mint: opt_str_view(nft_mint),
                            ..old(db)@.projects[i as int]
                        },
                    ));
                }
                self.nft_mint = nft_mint;
                return ;
            }
            i = i + 1;
        }
        self.nft_mint = nft_mint;
    }
}


/// The quoted, space-joined rendering of an address list: each address in
/// double quotes, single spaces between.
pub open spec fn spec_quoted_joined(addrs: Seq<Seq<char>>) -> Seq<char>
    decreases addrs.len(),
{
    if addrs.len() == 0 {
        Seq::<char>::empty()
    } else if addrs.len() == 1 {
        "\""@ + addrs[0] + "\""@
    } else {
        spec_quoted_joined(addrs.drop_last()) + " \""@ + addrs.last() + "\""@
    }
}

/// Renders an address list quoted and space-joined.
fn quoted_joined(addrs: &Vec<String>) -> (r: String)
    ensures
        r@ == spec_quoted_joined(addrs@.map_values(|s: String| s@)),
{
    let ghost views = addrs@.map_values(|s: String| s@);
    let mut out: Vec<char> = Vec::new();
    let n = addrs.len();
    let mut i: usize = 0;
    proof {
        assert(views.subrange(0, 0) =~= Seq::<Seq<char>>::empty());
    }
    while i < n
        invariant
            n == addrs@.len(),
            views == addrs@.map_values(|s: String| s@),
            0 <= i <= n,
            out@ == spec_quoted_joined(views.subrange(0, i as int)),
        decreases n - i,
    {
        proof {
            let pre = views.subrange(0, i + 1);
            assert(pre.drop_last() =~= views.subrange(0, i as int));
            assert(pre.last() == views[i as int]);
            assert(views[i as int] == addrs@[i as int]@);
        }
        if i == 0 {
            crate::textutil::push_chars(&mut out, "\"");
            crate::textutil::push_chars(&mut out, addrs[i].as_str());
            crate::textutil::push_chars(&mut out, "\"");
            proof {
                assert(out@ =~= spec_quoted_joined(views.subrange(0, i + 1)));
            }
        } else {
            crate::textutil::push_chars(&mut out, " \"");
            crate::textutil::push_chars(&mut out, addrs[i].as_str());
            crate::textutil::push_chars(&mut out, "\"");
            proof {
                assert(out@ =~= spec_quoted_joined(views.subrange(0, i + 1)));
            }
        }
        i = i + 1;
    }
    proof {
        assert(views.subrange(0, views.len() as int) =~= views);
    }
    crate::textutil::chars_to_string(&out)
}

/// The flake of a project: the Nix expression deployed for its container,
/// parameterised by the project's name, pinned version (appended to the
/// source URL when set), account association (empty placeholders when
/// absent) and allowed base-build addresses (an empty list when absent),
/// each embedded exactly once where shown.
pub open spec fn spec_flake(p: ProjectView) -> Seq<char> {
    let header = match p.account_association {
        Some(a) => a.header,
        None => Seq::<char>::empty(),
    };
    let payload = match p.account_association {
        Some(a) => a.payload,
        None => Seq::<char>::empty(),
    };
    let signature = match p.account_association {
        Some(a) => a.signature,
        None => Seq::<char>::empty(),
    };
    let allowed = match p.base_build {
        Some(b) => spec_quoted_joined(b.allowed_addresses),
        None => Seq::<char>::empty(),
    };
    let version_part = match p.version {
        Some(v) => "/"@ + v,
        None => Seq::<char>::empty(),
    };
    "{
  inputs = {
    xnode-manager.url = \"github:Openmesh-Network/xnode-manager\";
    xnode-miniapp-template.url = \"github:miniapp-factory/"@ + p.name + version_part
        + "\";
    nixpkgs.follows = \"xnode-miniapp-template/nixpkgs\";
  };

  outputs = inputs: {
    nixosConfigurations.container = inputs.nixpkgs.lib.nixosSystem {
      specialArgs = {
        inherit inputs;
      };
      modules = [
        inputs.xnode-manager.nixosModules.container
        {
          services.xnode-container.xnode-config = {
            host-platform = ./xnode-config/host-platform;
            state-version = ./xnode-config/state-version;
            hostname = ./xnode-config/hostname;
          };
        }
        inputs.xnode-miniapp-template.nixosModules.default
        {
          services.xnode-miniapp-template.enable = true;
          services.xnode-miniapp-template.url = \"https://"@ + p.name
        + ".miniapp-factory.marketplace.openxai.network\";
          services.xnode-miniapp-template.accountAssociation = {
            header = \""@ + header + "\";
            payload = \""@ + payload + "\";
            signature = \""@ + signature + "\";
          };
          services.xnode-miniapp-template.baseBuilder = {
            allowedAddresses = [ "@ + allowed + " ];
          };
        }
      ];
    };
  };
}"@
}

impl DatabaseProject {
    /// The flake deployed for this project's container.
    pub fn get_flake(&self) -> (r: String)
        ensures
            r@ == spec_flake(self@),
    {
        let header: &str = match &self.account_association {
            Some(a) => a.header.as_str(),
            None => "",
        };
        let payload: &str = match &self.account_association {
            Some(a) => a.payload.as_str(),
            None => "",
        };
        let signature: &str = match &self.account_association {
            Some(a) => a.signature.as_str(),
            None => "",
        };
        let allowed: String = match &self.base_build {
            Some(b) => quoted_joined(&b.allowed_addresses),
            None => String::new(),
        };
        let version_part: String = match &self.version {
            Some(v) => "/".to_owned().concat(v.as_str()),
            None => String::new(),
        };
        let mut out: Vec<char> = crate::textutil::str_to_chars(
            "{
  inputs = {
    xnode-manager.url = \"github:Openmesh-Network/xnode-manager\";
    xnode-miniapp-template.url = \"github:miniapp-factory/",
        );
        crate::textutil::push_chars(&mut out, self.name.as_str());
        crate::textutil::push_chars(&mut out, version_part.as_str());
        crate::textutil::push_chars(
            &mut out,
            "\";
    nixpkgs.follows = \"xnode-miniapp-template/nixpkgs\";
  };

  outputs = inputs: {
    nixosConfigurations.container = inputs.nixpkgs.lib.nixosSystem {
      specialArgs = {
        inherit inputs;
      };
      modules = [
        inputs.xnode-manager.nixosModules.container
        {
          services.xnode-container.xnode-config = {
            host-platform = ./xnode-config/host-platform;
            state-version = ./xnode-config/state-version;
            hostname = ./xnode-config/hostname;
          };
        }
        inputs.xnode-miniapp-template.nixosModules.default
        {
          services.xnode-miniapp-template.enable = true;
          services.xnode-miniapp-template.url = \"https://",
        );
        crate::textutil::push_chars(&mut out, self.name.as_str());
        crate::textutil::push_chars(
            &mut out,
            ".miniapp-factory.marketplace.openxai.network\";
          services.xnode-miniapp-template.accountAssociation = {
            header = \"",
        );
        crate::textutil::push_chars(&mut out, header);
        crate::textutil::push_chars(
            &mut out,
            "\";
            payload = \"",
        );
        crate::textutil::push_chars(&mut out, payload);
        crate::textutil::push_chars(
            &mut out,
            "\";
            signature = \"",
        );
        crate::textutil::push_chars(&mut out, signature);
        crate::textutil::push_chars(
            &mut out,
            "\";
          };
          services.xnode-miniapp-template.baseBuilder = {
            allowedAddresses = [ ",
        );
        crate::textutil::push_chars(&mut out, allowed.as_str());
        crate::textutil::push_chars(
            &mut out,
            " ];
          };
        }
      ];
    };
  };
}",
        );
        proof {
            reveal_strlit("");
            assert(""@ =~= Seq::<char>::empty());
            assert(out@ =~= spec_flake(self@));
        }
        crate::textutil::chars_to_string(&out)
    }
}

/// Flake placeholders: a project without an account association or
/// base build gets the same flake as one whose association fields are
/// empty strings and whose address list is empty — the placeholders are
/// empty, the rest identical. (An absent version leaves the source URL
/// without a version suffix rather than adding an empty one.)
pub proof fn lemma_flake_placeholders(p: ProjectView)
    requires
        p.account_association is None,
        p.base_build is None,
    ensures
        spec_flake(p) == spec_flake(
            ProjectView {
                account_association: Some(
                    AccountAssociationView {
                        header: Seq::<char>::empty(),
                        payload: Seq::<char>::empty(),
                        signature: Seq::<char>::empty(),
                    },
                ),
                base_build: Some(BaseBuildView { allowed_addresses: Seq::<Seq<char>>::empty() }),
                ..p
            },
        ),
{
}

} // verus!

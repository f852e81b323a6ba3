//! The decisions behind project management surfaces: which project a
//! ticket is requested for, and which projects belong on a user's list.

use vstd::prelude::*;

verus! {

/// What the project logic reads of one cloud project: its identifier, its
/// name, and the email addresses of its admins, all as opaque byte
/// strings.
pub struct ProjectInfo {
    pub id: Vec<u8>,
    pub name: Vec<u8>,
    pub admin_emails: Vec<Vec<u8>>,
}

impl ProjectInfo {
    /// Is `email` among the project's admins?
    pub open spec fn spec_has_admin(self, email: Seq<u8>) -> bool {
        exists|i: int| 0 <= i < self.admin_emails@.len() && (#[trigger] self.admin_emails@[i])@
            == email
    }

    pub fn has_admin_with_email(&self, email: &Vec<u8>) -> (r: bool)
        ensures
            r == self.spec_has_admin(email@),
    {
        let n = self.admin_emails.len();
        let mut i: usize = 0;
        while i < n
            invariant
                n == self.admin_emails@.len(),
                i <= n,
                forall|k: int| 0 <= k < i ==> (#[trigger] self.admin_emails@[k])@ != email@,
            decreases n - i,
        {
            if crate::bytes_eq(&self.admin_emails[i], email) {
                return true;
            }
            i += 1;
        }
        false
    }
}

/// Why a project lookup failed.
#[derive(Clone, Copy, PartialEq, Eq, Structural, Debug)]
pub enum ProjectError {
    /// No project carries the requested identifier.
    ProjectNotFound,
}

/// The name of the project an enrollment ticket is requested for: that of
/// the first project whose identifier matches. Fails exactly when no
/// project matches.
pub fn ticket_project_name<'a>(projects: &'a Vec<ProjectInfo>, project_id: &Vec<u8>) -> (r: Result<
    &'a Vec<u8>,
    ProjectError,
>)
    ensures
        r matches Ok(name) ==> exists|i: int|
            0 <= i < projects@.len() && (#[trigger] projects@[i]).id@ == project_id@ && name@
                == projects@[i].name@ && (forall|k: int|
                0 <= k < i ==> (#[trigger] projects@[k]).id@ != project_id@),
        r is Ok <==> exists|i: int|
            0 <= i < projects@.len() && (#[trigger] projects@[i]).id@ == project_id@,
        r is Err ==> r == Err::<&'a Vec<u8>, ProjectError>(ProjectError::ProjectNotFound),
{
    let n = projects.len();
    let mut i: usize = 0;
    while i < n
        invariant
            n == projects@.len(),
            i <= n,
            forall|k: int| 0 <= k < i ==> (#[trigger] projects@[k]).id@ != project_id@,
        decreases n - i,
    {
        if crate::bytes_eq(&projects[i].id, project_id) {
            return Ok(&projects[i].name);
        }
        i += 1;
    }
    Err(ProjectError::ProjectNotFound)
}

/// The projects a user administers, in their given order: exactly those
/// with `email` among their admins.
pub open spec fn admin_filter(s: Seq<ProjectInfo>, email: Seq<u8>) -> Seq<ProjectInfo>
    decreases s.len(),
{
    if s.len() == 0 {
        Seq::empty()
    } else {
        (if s[0].spec_has_admin(email) {
            seq![s[0]]
        } else {
            Seq::empty()
        }) + admin_filter(s.subrange(1, s.len() as int), email)
    }
}

/// Keeps, in order, exactly the projects that `email` administers; the
/// rest are dropped. This is the selection behind the user's project list.
pub fn admin_projects(mut projects: Vec<ProjectInfo>, email: &Vec<u8>) -> (r: Vec<ProjectInfo>)
    ensures
        r@ == admin_filter(projects@, email@),
{
    let ghost all = projects@;
    let mut out: Vec<ProjectInfo> = Vec::new();
    proof {
        assert(all.subrange(0, all.len() as int) =~= all);
        assert(admin_filter(all.subrange(all.len() as int, all.len() as int), email@)
            =~= Seq::empty());
    }
    while projects.len() > 0
        invariant
            projects@.len() <= all.len(),
            projects@ == all.subrange(0, projects@.len() as int),
            out@ == admin_filter(all.subrange(projects@.len() as int, all.len() as int), email@),
        decreases projects@.len(),
    {
        let ghost m = projects@.len() as int;
        let p = projects.pop().unwrap();
        proof {
            assert(all.subrange(0, m)[m - 1] == all[m - 1]);
            assert(p == all[m - 1]);
            assert(projects@ =~= all.subrange(0, m - 1));
            let tail = all.subrange(m, all.len() as int);
            let ext = all.subrange(m - 1, all.len() as int);
            assert(ext.subrange(1, ext.len() as int) =~= tail);
            assert(ext[0] == all[m - 1]);
        }
        if p.has_admin_with_email(email) {
            let ghost out0 = out@;
            out.insert(0, p);
            proof {
                assert(out@ =~= seq![all[m - 1]] + out0);
            }
        }
        proof {
            assert(out@ =~= admin_filter(all.subrange(m - 1, all.len() as int), email@));
        }
    }
    proof {
        assert(all.subrange(0, all.len() as int) =~= all);
    }
    out
}

} // verus!

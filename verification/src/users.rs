//! The public user lookups: the profile of a username and the skins a user
//! owns. Both resolve the username case-insensitively, the same match the
//! registration uniqueness check uses.

use vstd::prelude::*;

use crate::codec::{lower_of, lower_str};
use crate::model::{Accounts, ApiError, RespondSkin, SkinCollection, UserProfile};
use crate::service::{first_username_match, opt_string_view, str_eq, username_taken, Service};

verus! {

pub proof fn lemma_first_username_match_unique(
    accounts: Seq<Accounts>,
    name: Seq<char>,
    i: int,
    j: int,
)
    requires
        first_username_match(accounts, name, i),
        first_username_match(accounts, name, j),
    ensures
        i == j,
{
    if i < j {
        assert(lower_of(accounts[i].username@) != lower_of(name));
    }
    if j < i {
        assert(lower_of(accounts[j].username@) != lower_of(name));
    }
}

/// The records owned by `owner`, in store order.
pub open spec fn owned_skins(skins: Seq<SkinCollection>, owner: Seq<char>) -> Seq<SkinCollection>
    decreases skins.len(),
{
    if skins.len() == 0 {
        Seq::empty()
    } else {
        let rest = owned_skins(skins.drop_last(), owner);
        if skins.last().owner@ == owner {
            rest.push(skins.last())
        } else {
            rest
        }
    }
}

/// `r` is the listing payload of record `s`.
pub open spec fn respond_skin_of(s: SkinCollection, r: RespondSkin) -> bool {
    &&& r.id@ == s.id@
    &&& r.date == s.date
    &&& r.title@ == s.title@
    &&& r.description@ == s.description@
    &&& r.owner@ == s.owner@
}

/// `v` renders exactly the records `s`, in order.
pub open spec fn respond_skins_match(v: Seq<RespondSkin>, s: Seq<SkinCollection>) -> bool {
    &&& v.len() == s.len()
    &&& forall|k: int| 0 <= k < v.len() ==> respond_skin_of(s[k], #[trigger] v[k])
}

impl Service {
    /// The first account whose username equals `name` up to case, if any.
    pub(crate) fn find_username_index(&self, name: &str) -> (r: Option<usize>)
        ensures
            match r {
                Some(i) => first_username_match(self.accounts@, name@, i as int),
                None => !username_taken(self.accounts@, name@),
            },
    {
        let target = lower_str(name);
        let n = self.accounts.len();
        let mut i: usize = 0;
        while i < n
            invariant
                n == self.accounts@.len(),
                i <= n,
                target@ == lower_of(name@),
                forall|j: int| 0 <= j < i
                    ==> lower_of(self.accounts@[j].username@) != lower_of(name@),
            decreases n - i,
        {
            let low = lower_str(self.accounts[i].username.as_str());
            if str_eq(low.as_str(), target.as_str()) {
                return Some(i);
            }
            i += 1;
        }
        None
    }

    /// The public profile of a username: id, username as stored, and the
    /// optional profile fields — never the email or the password.
    pub fn index(&self, username: &str) -> (r: Result<UserProfile, ApiError>)
        ensures
            !username_taken(self.accounts@, username@) ==> r == Err::<UserProfile, ApiError>(
                ApiError::ProfileNotFound),
            forall|i: int| first_username_match(self.accounts@, username@, i) ==> ({
                let a = self.accounts@[i];
                r matches Ok(u) && u.id@ == a.id@ && u.username@ == a.username@
                    && opt_string_view(u.about_me) == opt_string_view(a.about_me)
                    && opt_string_view(u.profile_picture) == opt_string_view(a.profile_picture)
            }),
    {
        let i = match self.find_username_index(username) {
            None => {
                return Err(ApiError::ProfileNotFound);
            },
            Some(i) => i,
        };
        proof {
            assert forall|i2: int| first_username_match(self.accounts@, username@, i2)
                implies i2 == i as int by {
                lemma_first_username_match_unique(self.accounts@, username@, i as int, i2);
            }
        }
        let a = &self.accounts[i];
        let about_me = match &a.about_me {
            Some(s) => Some(s.clone()),
            None => None,
        };
        let profile_picture = match &a.profile_picture {
            Some(s) => Some(s.clone()),
            None => None,
        };
        Ok(UserProfile { id: a.id.clone(), username: a.username.clone(), about_me, profile_picture })
    }

    /// Every skin owned by the user with this username, rendered for the
    /// listing, in store order.
    pub fn get_user_skins(&self, username: &str) -> (r: Result<Vec<RespondSkin>, ApiError>)
        ensures
            !username_taken(self.accounts@, username@) ==> r == Err::<Vec<RespondSkin>, ApiError>(
                ApiError::UserNotFound),
            forall|i: int| first_username_match(self.accounts@, username@, i)
                ==> (r matches Ok(v) && respond_skins_match(v@, owned_skins(self.skins@,
                    self.accounts@[i].id@))),
    {
        let i = match self.find_username_index(username) {
            None => {
                return Err(ApiError::UserNotFound);
            },
            Some(i) => i,
        };
        proof {
            assert forall|i2: int| first_username_match(self.accounts@, username@, i2)
                implies i2 == i as int by {
                lemma_first_username_match_unique(self.accounts@, username@, i as int, i2);
            }
        }
        let owner = &self.accounts[i].id;
        let n = self.skins.len();
        let mut v: Vec<RespondSkin> = Vec::new();
        let mut j: usize = 0;
        while j < n
            invariant
                n == self.skins@.len(),
                j <= n,
                owner == &self.accounts@[i as int].id,
                i < self.accounts@.len(),
                respond_skins_match(v@, owned_skins(self.skins@.take(j as int), owner@)),
            decreases n - j,
        {
            proof {
                assert(self.skins@.take(j as int + 1).drop_last() =~= self.skins@.take(j as int));
                assert(self.skins@.take(j as int + 1).last() == self.skins@[j as int]);
            }
            let s = &self.skins[j];
            if str_eq(s.owner.as_str(), owner.as_str()) {
                v.push(RespondSkin {
                    id: s.id.clone(),
                    date: s.date,
                    title: s.title.clone(),
                    description: s.description.clone(),
                    owner: s.owner.clone(),
                });
            }
            j += 1;
        }
        proof {
            assert(self.skins@.take(n as int) =~= self.skins@);
        }
        Ok(v)
    }
}

} // verus!

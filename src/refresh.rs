//! From an authenticated session to role credentials: which profiles to
//! refresh, what to ask the role exchange for each, and the commit of all
//! the answers to the credential store, all of them or none.

use vstd::prelude::*;

use crate::config::{opt_str_view, prop, AwsConfigSections, NamedView, Profile, Session};
use crate::credentials::{put_spec, CredentialStore, RoleCredentials, SectionView};
use crate::error::Error;
use crate::text::same_text;

verus! {

/// Where a device flow runs: the identity provider's region and start URL.
pub struct LoginTarget {
    pub region: String,
    pub start_url: String,
}

/// One role exchange to make: the account and role of a profile.
pub struct RoleRequest {
    pub profile_name: String,
    pub account_id: String,
    pub role_name: String,
}

impl View for RoleRequest {
    type V = (Seq<char>, Seq<char>, Seq<char>);

    open spec fn view(&self) -> (Seq<char>, Seq<char>, Seq<char>) {
        (self.profile_name@, self.account_id@, self.role_name@)
    }
}

/// Position of the first entry named `name`, or the length.
pub open spec fn named_index(s: Seq<NamedView>, name: Seq<char>, i: int) -> int
    decreases s.len() - i,
{
    if i < 0 || i >= s.len() {
        s.len() as int
    } else if s[i].0 == name {
        i
    } else {
        named_index(s, name, i + 1)
    }
}

fn find_session(sessions: &Vec<Session>, name: &str) -> (r: Option<usize>)
    ensures
        match r {
            Some(i) => i < sessions.len() && i == named_index(
                sessions@.map_values(|s: Session| s@),
                name@,
                0,
            ),
            None => named_index(sessions@.map_values(|s: Session| s@), name@, 0) == sessions.len(),
        },
{
    let ghost v = sessions@.map_values(|s: Session| s@);
    let mut i: usize = 0;
    while i < sessions.len()
        invariant
            v == sessions@.map_values(|s: Session| s@),
            i <= sessions.len(),
            named_index(v, name@, 0) == named_index(v, name@, i as int),
        decreases sessions.len() - i,
    {
        if same_text(sessions[i].name.as_str(), name) {
            return Some(i);
        }
        i = i + 1;
    }
    None
}

fn find_profile(profiles: &Vec<Profile>, name: &str) -> (r: Option<usize>)
    ensures
        match r {
            Some(i) => i < profiles.len() && i == named_index(
                profiles@.map_values(|p: Profile| p@),
                name@,
                0,
            ),
            None => named_index(profiles@.map_values(|p: Profile| p@), name@, 0) == profiles.len(),
        },
{
    let ghost v = profiles@.map_values(|p: Profile| p@);
    let mut i: usize = 0;
    while i < profiles.len()
        invariant
            v == profiles@.map_values(|p: Profile| p@),
            i <= profiles.len(),
            named_index(v, name@, 0) == named_index(v, name@, i as int),
        decreases profiles.len() - i,
    {
        if same_text(profiles[i].name.as_str(), name) {
            return Some(i);
        }
        i = i + 1;
    }
    None
}

/// The region and start URL of a session, or why there are none.
pub open spec fn session_target_spec(cfg: (Seq<NamedView>, Seq<NamedView>), name: Seq<char>) -> Result<(Seq<char>, Seq<char>), Error> {
    let ss = cfg.1;
    let i = named_index(ss, name, 0);
    if i >= ss.len() {
        Err(Error::SessionNotFound)
    } else {
        match (prop(ss[i].1, "sso_region"@), prop(ss[i].1, "sso_start_url"@)) {
            (None, _) => Err(Error::MissingRegion),
            (Some(_), None) => Err(Error::MissingStartUrl),
            (Some(r), Some(u)) => Ok((r, u)),
        }
    }
}

/// The region and start URL, account and role of a legacy profile, or why
/// there are none.
pub open spec fn legacy_target_spec(cfg: (Seq<NamedView>, Seq<NamedView>), name: Seq<char>) -> Result<(Seq<char>, Seq<char>, Seq<char>, Seq<char>), Error> {
    let ps = cfg.0;
    let i = named_index(ps, name, 0);
    if i >= ps.len() {
        Err(Error::ProfileNotFound)
    } else {
        let p = ps[i].1;
        match (prop(p, "sso_region"@), prop(p, "sso_start_url"@), prop(p, "sso_account_id"@), prop(p, "sso_role_name"@)) {
            (None, _, _, _) => Err(Error::MissingRegion),
            (Some(_), None, _, _) => Err(Error::MissingStartUrl),
            (Some(_), Some(_), None, _) => Err(Error::MissingAccountId),
            (Some(_), Some(_), Some(_), None) => Err(Error::MissingRoleName),
            (Some(r), Some(u), Some(a), Some(n)) => Ok((r, u, a, n)),
        }
    }
}

impl AwsConfigSections {
    pub open spec fn view_pair(&self) -> (Seq<NamedView>, Seq<NamedView>) {
        (self.profiles_view(), self.sessions_view())
    }

    /// Where to run the device flow for a session.
    pub fn session_target(&self, name: &str) -> (r: Result<LoginTarget, Error>)
        ensures
            match session_target_spec(self.view_pair(), name@) {
                Ok((reg, url)) => r.is_ok() && r.unwrap().region@ == reg && r.unwrap().start_url@ == url,
                Err(e) => r == Err::<LoginTarget, Error>(e),
            },
    {
        let i = match find_session(&self.sessions, name) {
            Some(i) => i,
            None => return Err(Error::SessionNotFound),
        };
        let s = &self.sessions[i];
        let region = match s.get("sso_region") {
            Some(r) => r,
            None => return Err(Error::MissingRegion),
        };
        let url = match s.get("sso_start_url") {
            Some(u) => u,
            None => return Err(Error::MissingStartUrl),
        };
        Ok(LoginTarget { region: String::from_str(region), start_url: String::from_str(url) })
    }

    /// Where to run the device flow for a legacy profile, and the one role
    /// exchange that follows it, under the profile's own name.
    pub fn legacy_target(&self, name: &str) -> (r: Result<(LoginTarget, RoleRequest), Error>)
        ensures
            match legacy_target_spec(self.view_pair(), name@) {
                Ok((reg, url, acct, role)) => r.is_ok() && r.unwrap().0.region@ == reg
                    && r.unwrap().0.start_url@ == url && r.unwrap().1@ == (name@, acct, role),
                Err(e) => r == Err::<(LoginTarget, RoleRequest), Error>(e),
            },
    {
        let i = match find_profile(&self.profiles, name) {
            Some(i) => i,
            None => return Err(Error::ProfileNotFound),
        };
        let p = &self.profiles[i];
        let region = match p.get("sso_region") {
            Some(r) => r,
            None => return Err(Error::MissingRegion),
        };
        let url = match p.get("sso_start_url") {
            Some(u) => u,
            None => return Err(Error::MissingStartUrl),
        };
        let acct = match p.get("sso_account_id") {
            Some(a) => a,
            None => return Err(Error::MissingAccountId),
        };
        let role = match p.get("sso_role_name") {
            Some(n) => n,
            None => return Err(Error::MissingRoleName),
        };
        Ok(
            (
                LoginTarget { region: String::from_str(region), start_url: String::from_str(url) },
                RoleRequest {
                    profile_name: String::from_str(name),
                    account_id: String::from_str(acct),
                    role_name: String::from_str(role),
                },
            ),
        )
    }

    /// One role exchange for every profile bound to the session, in the
    /// order of the configuration; a bound profile without an account id or
    /// a role name is an error.
    pub fn session_role_requests(&self, session_name: &str) -> (r: Result<Vec<RoleRequest>, Error>)
        ensures
            match requests_spec(self.profiles_view(), session_name@) {
                Ok(reqs) => r.is_ok() && r.unwrap()@.map_values(|q: RoleRequest| q@) == reqs,
                Err(e) => r == Err::<Vec<RoleRequest>, Error>(e),
            },
    {
        let ghost ps = self.profiles_view();
        let mut out: Vec<RoleRequest> = Vec::new();
        assert(out@.map_values(|q: RoleRequest| q@) =~= Seq::empty());
        assert(ps.subrange(0, 0) =~= Seq::<NamedView>::empty());
        let mut i: usize = 0;
        while i < self.profiles.len()
            invariant
                ps == self.profiles_view(),
                i <= self.profiles.len(),
                requests_spec(ps.subrange(0, i as int), session_name@) == Ok::<Seq<(Seq<char>, Seq<char>, Seq<char>)>, Error>(
                    out@.map_values(|q: RoleRequest| q@),
                ),
            decreases self.profiles.len() - i,
        {
            let ghost pre = ps.subrange(0, i as int);
            let ghost next_pre = ps.subrange(0, i + 1);
            assert(next_pre.drop_last() =~= pre);
            let p = &self.profiles[i];
            let bound = match p.get("sso_session") {
                Some(s) => same_text(s, session_name),
                None => false,
            };
            if bound {
                let acct = match p.get("sso_account_id") {
                    Some(a) => a,
                    None => {
                        proof {
                            lemma_requests_err(ps, session_name@, i as int + 1, ps.len() as int);
                            assert(ps.subrange(0, ps.len() as int) =~= ps);
                        }
                        return Err(Error::MissingAccountId);
                    },
                };
                let role = match p.get("sso_role_name") {
                    Some(n) => n,
                    None => {
                        proof {
                            lemma_requests_err(ps, session_name@, i as int + 1, ps.len() as int);
                            assert(ps.subrange(0, ps.len() as int) =~= ps);
                        }
                        return Err(Error::MissingRoleName);
                    },
                };
                let ghost before = out@.map_values(|q: RoleRequest| q@);
                out.push(
                    RoleRequest {
                        profile_name: p.name.clone(),
                        account_id: String::from_str(acct),
                        role_name: String::from_str(role),
                    },
                );
                assert(out@.map_values(|q: RoleRequest| q@) =~= before.push((ps[i as int].0, acct@, role@)));
            }
            i = i + 1;
        }
        assert(ps.subrange(0, self.profiles.len() as int) =~= ps);
        Ok(out)
    }
}

/// The role exchanges for the profiles bound to a session, or the error of
/// the first bound profile that lacks its account id or role name.
pub open spec fn requests_spec(ps: Seq<NamedView>, sn: Seq<char>) -> Result<Seq<(Seq<char>, Seq<char>, Seq<char>)>, Error>
    decreases ps.len(),
{
    if ps.len() == 0 {
        Ok(Seq::empty())
    } else {
        match requests_spec(ps.drop_last(), sn) {
            Err(e) => Err(e),
            Ok(rest) => {
                let p = ps.last();
                if prop(p.1, "sso_session"@) == Some(sn) {
                    match (prop(p.1, "sso_account_id"@), prop(p.1, "sso_role_name"@)) {
                        (None, _) => Err(Error::MissingAccountId),
                        (Some(_), None) => Err(Error::MissingRoleName),
                        (Some(a), Some(n)) => Ok(rest.push((p.0, a, n))),
                    }
                } else {
                    Ok(rest)
                }
            },
        }
    }
}

proof fn lemma_requests_err(ps: Seq<NamedView>, sn: Seq<char>, i: int, j: int)
    requires
        0 <= i <= j <= ps.len(),
        requests_spec(ps.subrange(0, i), sn).is_err(),
    ensures
        requests_spec(ps.subrange(0, j), sn) == requests_spec(ps.subrange(0, i), sn),
    decreases j - i,
{
    if i < j {
        lemma_requests_err(ps, sn, i, j - 1);
        assert(ps.subrange(0, j).drop_last() =~= ps.subrange(0, j - 1));
    }
}

/// The first error among the answers: that of a failed exchange, or credentials
/// that the store would refuse.
pub open spec fn answers_error(store: Seq<SectionView>, names: Seq<Seq<char>>, answers: Seq<Result<RoleCredentials, Error>>) -> Option<Error>
    decreases answers.len(),
{
    if answers.len() == 0 {
        None
    } else {
        match answers_error(store, names.drop_last(), answers.drop_last()) {
            Some(e) => Some(e),
            None => match answers.last() {
                Err(e) => Some(e),
                Ok(c) => match put_spec(store, names.last(), c) {
                    Err(e) => Some(e),
                    Ok(_) => None,
                },
            },
        }
    }
}

/// The store after putting each answer under its profile's name in turn.
pub open spec fn put_all(store: Seq<SectionView>, names: Seq<Seq<char>>, answers: Seq<Result<RoleCredentials, Error>>) -> Seq<SectionView>
    decreases answers.len(),
{
    if answers.len() == 0 {
        store
    } else {
        let s = put_all(store, names.drop_last(), answers.drop_last());
        match answers.last() {
            Ok(c) => match put_spec(s, names.last(), c) {
                Ok(t) => t,
                Err(_) => s,
            },
            Err(_) => s,
        }
    }
}

/// Whether a put's failure depends on the store: it does not.
proof fn lemma_put_error_independent(a: Seq<SectionView>, b: Seq<SectionView>, name: Seq<char>, c: RoleCredentials)
    ensures
        put_spec(a, name, c).is_err() == put_spec(b, name, c).is_err(),
        put_spec(a, name, c).is_err() ==> put_spec(a, name, c) == put_spec(b, name, c),
{
}

/// Commits the answers of a fan-out, each the credentials of one request or
/// the error its exchange met. Where any exchange failed, or any
/// answer lacks a field the store needs, nothing is written and the first
/// such error is returned; otherwise each profile's credentials are put in
/// turn, one after the other.
pub fn commit_role_credentials(
    store: &mut CredentialStore,
    requests: &Vec<RoleRequest>,
    answers: &Vec<Result<RoleCredentials, Error>>,
) -> (r: Result<(), Error>)
    ensures
        requests.len() != answers.len() ==> r == Err::<(), Error>(Error::RequestFailed) && final(store)@ == old(store)@,
        requests.len() == answers.len() ==> match answers_error(
            old(store)@,
            requests@.map_values(|q: RoleRequest| q.profile_name@),
            answers@,
        ) {
            Some(e) => r == Err::<(), Error>(e) && final(store)@ == old(store)@,
            None => r.is_ok() && final(store)@ == put_all(
                old(store)@,
                requests@.map_values(|q: RoleRequest| q.profile_name@),
                answers@,
            ),
        },
        (exists|i: int| 0 <= i < answers.len() && #[trigger] answers@[i].is_err()) ==> r.is_err()
            && final(store)@ == old(store)@,
{
    if requests.len() != answers.len() {
        return Err(Error::RequestFailed);
    }
    let ghost names = requests@.map_values(|q: RoleRequest| q.profile_name@);
    let ghost s0 = store@;
    // First pass: every answer must be there and acceptable.
    let mut i: usize = 0;
    while i < answers.len()
        invariant
            i <= answers.len(),
            answers.len() == requests.len(),
            names == requests@.map_values(|q: RoleRequest| q.profile_name@),
            store@ == s0,
            answers_error(s0, names.subrange(0, i as int), answers@.subrange(0, i as int)).is_none(),
            forall|j: int| 0 <= j < i ==> (#[trigger] answers@[j]).is_ok(),
        decreases answers.len() - i,
    {
        assert(names.subrange(0, i + 1).drop_last() =~= names.subrange(0, i as int));
        assert(answers@.subrange(0, i + 1).drop_last() =~= answers@.subrange(0, i as int));
        match &answers[i] {
            Err(e) => {
                proof {
                    lemma_answers_err(s0, names, answers@, i as int + 1, answers.len() as int);
                    assert(names.subrange(0, answers.len() as int) =~= names);
                    assert(answers@.subrange(0, answers.len() as int) =~= answers@);
                }
                return Err(*e);
            },
            Ok(c) => {
                let check = credentials_error(c);
                if let Some(e) = check {
                    proof {
                        lemma_answers_err(s0, names, answers@, i as int + 1, answers.len() as int);
                        assert(names.subrange(0, answers.len() as int) =~= names);
                        assert(answers@.subrange(0, answers.len() as int) =~= answers@);
                    }
                    return Err(e);
                }
            },
        }
        i = i + 1;
    }
    assert(names.subrange(0, answers.len() as int) =~= names);
    assert(answers@.subrange(0, answers.len() as int) =~= answers@);
    // Second pass: the writes, one at a time.
    let mut k: usize = 0;
    while k < answers.len()
        invariant
            k <= answers.len(),
            answers.len() == requests.len(),
            names == requests@.map_values(|q: RoleRequest| q.profile_name@),
            forall|j: int| 0 <= j < answers.len() ==> (#[trigger] answers@[j]).is_ok(),
            answers_error(s0, names, answers@).is_none(),
            store@ == put_all(s0, names.subrange(0, k as int), answers@.subrange(0, k as int)),
        decreases answers.len() - k,
    {
        assert(names.subrange(0, k + 1).drop_last() =~= names.subrange(0, k as int));
        assert(answers@.subrange(0, k + 1).drop_last() =~= answers@.subrange(0, k as int));
        proof {
            assert(names.subrange(0, answers.len() as int) =~= names);
            assert(answers@.subrange(0, answers.len() as int) =~= answers@);
            lemma_answers_prefix_ok(s0, names, answers@, k as int + 1, answers.len() as int);
        }
        match &answers[k] {
            Ok(c) => {
                let ghost before = store@;
                proof {
                    lemma_put_error_independent(before, s0, names[k as int], *c);
                }
                let _ = store.put(requests[k].profile_name.as_str(), c);
            },
            Err(_) => {},
        }
        k = k + 1;
    }
    assert(names.subrange(0, answers.len() as int) =~= names);
    assert(answers@.subrange(0, answers.len() as int) =~= answers@);
    Ok(())
}

proof fn lemma_answers_err(store: Seq<SectionView>, names: Seq<Seq<char>>, answers: Seq<Result<RoleCredentials, Error>>, i: int, j: int)
    requires
        0 <= i <= j <= answers.len(),
        names.len() == answers.len(),
        answers_error(store, names.subrange(0, i), answers.subrange(0, i)).is_some(),
    ensures
        answers_error(store, names.subrange(0, j), answers.subrange(0, j)) == answers_error(
            store,
            names.subrange(0, i),
            answers.subrange(0, i),
        ),
    decreases j - i,
{
    if i < j {
        lemma_answers_err(store, names, answers, i, j - 1);
        assert(names.subrange(0, j).drop_last() =~= names.subrange(0, j - 1));
        assert(answers.subrange(0, j).drop_last() =~= answers.subrange(0, j - 1));
    }
}

proof fn lemma_answers_prefix_ok(store: Seq<SectionView>, names: Seq<Seq<char>>, answers: Seq<Result<RoleCredentials, Error>>, i: int, j: int)
    requires
        0 <= i <= j <= answers.len(),
        names.len() == answers.len(),
        answers_error(store, names.subrange(0, j), answers.subrange(0, j)).is_none(),
    ensures
        answers_error(store, names.subrange(0, i), answers.subrange(0, i)).is_none(),
    decreases j - i,
{
    if i < j {
        assert(names.subrange(0, j).drop_last() =~= names.subrange(0, j - 1));
        assert(answers.subrange(0, j).drop_last() =~= answers.subrange(0, j - 1));
        lemma_answers_prefix_ok(store, names, answers, i, j - 1);
    }
}

/// The error a put of these credentials would report, whatever the store.
fn credentials_error(c: &RoleCredentials) -> (r: Option<Error>)
    ensures
        forall|s: Seq<SectionView>, n: Seq<char>| match #[trigger] put_spec(s, n, *c) {
            Ok(_) => r.is_none(),
            Err(e) => r == Some(e),
        },
{
    if crate::time::rfc3339_text(c.expiration).is_none() {
        return Some(Error::InvalidTimestamp);
    }
    if c.session_token.is_none() {
        return Some(Error::MissingSessionToken);
    }
    if c.access_key_id.is_none() {
        return Some(Error::MissingAccessKeyId);
    }
    if c.secret_access_key.is_none() {
        return Some(Error::MissingSecretAccessKey);
    }
    None
}

} // verus!

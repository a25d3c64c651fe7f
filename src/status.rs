//! The read-only view of sessions and profiles with their expirations and
//! freshness, built from the configuration, the token cache and the
//! credential store.

use vstd::prelude::*;

use crate::cache::{lookup_spec, TokenCache, CacheView};
use crate::config::{prop, AwsConfigSections, NamedView};
use crate::credentials::{get_spec, CredentialStore, SectionView};
use crate::error::Error;
use crate::text::same_text;
use crate::time::{fresh_spec, is_fresh, opt_int};

verus! {

pub struct ButlerSsoSession {
    pub session_name: String,
    pub session_expiration: Option<i64>,
    pub fresh: bool,
    pub profile_names: Vec<String>,
}

pub struct ButlerSsoProfile {
    pub profile_name: String,
    pub session_name: String,
    pub profile_expiration: Option<i64>,
    pub fresh: bool,
}

pub struct ButlerSsoLegacyProfile {
    pub profile_name: String,
    pub profile_expiration: Option<i64>,
    pub fresh: bool,
}

pub struct ButlerSsoConfig {
    pub sessions: Vec<ButlerSsoSession>,
    pub sso_profiles: Vec<ButlerSsoProfile>,
    pub legacy_profiles: Vec<ButlerSsoLegacyProfile>,
}

impl View for ButlerSsoSession {
    type V = (Seq<char>, Option<int>, bool, Seq<Seq<char>>);

    open spec fn view(&self) -> Self::V {
        (self.session_name@, opt_int(self.session_expiration), self.fresh, self.profile_names@.map_values(|n: String| n@))
    }
}

impl View for ButlerSsoProfile {
    type V = (Seq<char>, Seq<char>, Option<int>, bool);

    open spec fn view(&self) -> Self::V {
        (self.profile_name@, self.session_name@, opt_int(self.profile_expiration), self.fresh)
    }
}

impl View for ButlerSsoLegacyProfile {
    type V = (Seq<char>, Option<int>, bool);

    open spec fn view(&self) -> Self::V {
        (self.profile_name@, opt_int(self.profile_expiration), self.fresh)
    }
}

/// Names of the profiles bound to session `sn`, in configuration order.
pub open spec fn bound_names(ps: Seq<NamedView>, sn: Seq<char>) -> Seq<Seq<char>>
    decreases ps.len(),
{
    if ps.len() == 0 {
        Seq::empty()
    } else {
        let rest = bound_names(ps.drop_last(), sn);
        if prop(ps.last().1, "sso_session"@) == Some(sn) {
            rest.push(ps.last().0)
        } else {
            rest
        }
    }
}

/// The status of each session in turn, or the first cache error.
pub open spec fn sessions_status(c: CacheView, ss: Seq<NamedView>, ps: Seq<NamedView>, now: int) -> Result<Seq<(Seq<char>, Option<int>, bool, Seq<Seq<char>>)>, Error>
    decreases ss.len(),
{
    if ss.len() == 0 {
        Ok(Seq::empty())
    } else {
        match sessions_status(c, ss.drop_last(), ps, now) {
            Err(e) => Err(e),
            Ok(rest) => match lookup_spec(c, ss.last().0) {
                Err(e) => Err(e),
                Ok(tok) => {
                    let exp = match tok {
                        Some(t) => Some(t.expiration),
                        None => None,
                    };
                    Ok(rest.push((ss.last().0, exp, fresh_spec(exp, now), bound_names(ps, ss.last().0))))
                },
            },
        }
    }
}

/// The status of each profile bound to a session, or the first store error.
pub open spec fn sso_status(store: Seq<SectionView>, ps: Seq<NamedView>, now: int) -> Result<Seq<(Seq<char>, Seq<char>, Option<int>, bool)>, Error>
    decreases ps.len(),
{
    if ps.len() == 0 {
        Ok(Seq::empty())
    } else {
        match sso_status(store, ps.drop_last(), now) {
            Err(e) => Err(e),
            Ok(rest) => {
                let p = ps.last();
                match prop(p.1, "sso_session"@) {
                    None => Ok(rest),
                    Some(sn) => match get_spec(store, p.0) {
                        Err(e) => Err(e),
                        Ok(exp) => Ok(rest.push((p.0, sn, exp, fresh_spec(exp, now)))),
                    },
                }
            },
        }
    }
}

/// A legacy profile: no session, but a region and a start URL of its own.
pub open spec fn is_legacy(p: NamedView) -> bool {
    prop(p.1, "sso_session"@).is_none() && prop(p.1, "sso_region"@).is_some() && prop(
        p.1,
        "sso_start_url"@,
    ).is_some()
}

/// The status of each legacy profile, or the first store error.
pub open spec fn legacy_status(store: Seq<SectionView>, ps: Seq<NamedView>, now: int) -> Result<Seq<(Seq<char>, Option<int>, bool)>, Error>
    decreases ps.len(),
{
    if ps.len() == 0 {
        Ok(Seq::empty())
    } else {
        match legacy_status(store, ps.drop_last(), now) {
            Err(e) => Err(e),
            Ok(rest) => {
                let p = ps.last();
                if is_legacy(p) {
                    match get_spec(store, p.0) {
                        Err(e) => Err(e),
                        Ok(exp) => Ok(rest.push((p.0, exp, fresh_spec(exp, now)))),
                    }
                } else {
                    Ok(rest)
                }
            },
        }
    }
}

proof fn lemma_sessions_err(c: CacheView, ss: Seq<NamedView>, ps: Seq<NamedView>, now: int, i: int, j: int)
    requires
        0 <= i <= j <= ss.len(),
        sessions_status(c, ss.subrange(0, i), ps, now).is_err(),
    ensures
        sessions_status(c, ss.subrange(0, j), ps, now) == sessions_status(c, ss.subrange(0, i), ps, now),
    decreases j - i,
{
    if i < j {
        lemma_sessions_err(c, ss, ps, now, i, j - 1);
        assert(ss.subrange(0, j).drop_last() =~= ss.subrange(0, j - 1));
    }
}

proof fn lemma_sso_err(store: Seq<SectionView>, ps: Seq<NamedView>, now: int, i: int, j: int)
    requires
        0 <= i <= j <= ps.len(),
        sso_status(store, ps.subrange(0, i), now).is_err(),
    ensures
        sso_status(store, ps.subrange(0, j), now) == sso_status(store, ps.subrange(0, i), now),
    decreases j - i,
{
    if i < j {
        lemma_sso_err(store, ps, now, i, j - 1);
        assert(ps.subrange(0, j).drop_last() =~= ps.subrange(0, j - 1));
    }
}

proof fn lemma_legacy_err(store: Seq<SectionView>, ps: Seq<NamedView>, now: int, i: int, j: int)
    requires
        0 <= i <= j <= ps.len(),
        legacy_status(store, ps.subrange(0, i), now).is_err(),
    ensures
        legacy_status(store, ps.subrange(0, j), now) == legacy_status(store, ps.subrange(0, i), now),
    decreases j - i,
{
    if i < j {
        lemma_legacy_err(store, ps, now, i, j - 1);
        assert(ps.subrange(0, j).drop_last() =~= ps.subrange(0, j - 1));
    }
}

/// The whole status view, or the first error met: sessions first, then the
/// profiles bound to sessions, then the legacy profiles.
pub open spec fn butler_spec(cfg: &AwsConfigSections, c: CacheView, store: Seq<SectionView>, now: int) -> Result<(Seq<(Seq<char>, Option<int>, bool, Seq<Seq<char>>)>, Seq<(Seq<char>, Seq<char>, Option<int>, bool)>, Seq<(Seq<char>, Option<int>, bool)>), Error> {
    match sessions_status(c, cfg.sessions_view(), cfg.profiles_view(), now) {
        Err(e) => Err(e),
        Ok(ss) => match sso_status(store, cfg.profiles_view(), now) {
            Err(e) => Err(e),
            Ok(sp) => match legacy_status(store, cfg.profiles_view(), now) {
                Err(e) => Err(e),
                Ok(lp) => Ok((ss, sp, lp)),
            },
        },
    }
}

fn profile_names_for(cfg: &AwsConfigSections, sn: &str) -> (r: Vec<String>)
    ensures
        r@.map_values(|n: String| n@) == bound_names(cfg.profiles_view(), sn@),
{
    let ghost ps = cfg.profiles_view();
    let mut out: Vec<String> = Vec::new();
    assert(out@.map_values(|n: String| n@) =~= Seq::<Seq<char>>::empty());
    let mut i: usize = 0;
    while i < cfg.profiles.len()
        invariant
            ps == cfg.profiles_view(),
            i <= cfg.profiles.len(),
            out@.map_values(|n: String| n@) == bound_names(ps.subrange(0, i as int), sn@),
        decreases cfg.profiles.len() - i,
    {
        assert(ps.subrange(0, i + 1).drop_last() =~= ps.subrange(0, i as int));
        let p = &cfg.profiles[i];
        let bound = match p.get("sso_session") {
            Some(s) => same_text(s, sn),
            None => false,
        };
        if bound {
            let ghost before = out@.map_values(|n: String| n@);
            out.push(p.name.clone());
            assert(out@.map_values(|n: String| n@) =~= before.push(ps[i as int].0));
        }
        i = i + 1;
    }
    assert(ps.subrange(0, cfg.profiles.len() as int) =~= ps);
    out
}

/// Builds the status view at instant `now`. A session is fresh when its
/// cached token expires after `now`, a profile when its stored credentials
/// do; with nothing cached or stored, it is not fresh.
pub fn fetch_butler_config(
    cfg: &AwsConfigSections,
    cache: &TokenCache,
    store: &CredentialStore,
    now: i64,
) -> (r: Result<ButlerSsoConfig, Error>)
    ensures
        match butler_spec(cfg, cache@, store@, now as int) {
            Err(e) => r == Err::<ButlerSsoConfig, Error>(e),
            Ok((ss, sp, lp)) => r.is_ok() && r.unwrap().sessions@.map_values(|s: ButlerSsoSession| s@) == ss
                && r.unwrap().sso_profiles@.map_values(|p: ButlerSsoProfile| p@) == sp
                && r.unwrap().legacy_profiles@.map_values(|p: ButlerSsoLegacyProfile| p@) == lp,
        },
{
    let ghost ss = cfg.sessions_view();
    let ghost ps = cfg.profiles_view();
    let ghost c = cache@;
    let ghost st = store@;

    let mut sessions: Vec<ButlerSsoSession> = Vec::new();
    assert(sessions@.map_values(|s: ButlerSsoSession| s@) =~= Seq::empty());
    assert(ss.subrange(0, 0) =~= Seq::<NamedView>::empty());
    let mut i: usize = 0;
    while i < cfg.sessions.len()
        invariant
            ss == cfg.sessions_view(),
            ps == cfg.profiles_view(),
            c == cache@,
            i <= cfg.sessions.len(),
            sessions_status(c, ss.subrange(0, i as int), ps, now as int) == Ok::<Seq<(Seq<char>, Option<int>, bool, Seq<Seq<char>>)>, Error>(
                sessions@.map_values(|s: ButlerSsoSession| s@),
            ),
        decreases cfg.sessions.len() - i,
    {
        assert(ss.subrange(0, i + 1).drop_last() =~= ss.subrange(0, i as int));
        let name = cfg.sessions[i].name();
        let exp = match cache.lookup(name) {
            Err(e) => {
                proof {
                    lemma_sessions_err(c, ss, ps, now as int, i as int + 1, ss.len() as int);
                    assert(ss.subrange(0, ss.len() as int) =~= ss);
                }
                return Err(e);
            },
            Ok(Some(t)) => Some(t.expiration),
            Ok(None) => None,
        };
        let names = profile_names_for(cfg, name);
        let ghost before = sessions@.map_values(|s: ButlerSsoSession| s@);
        sessions.push(
            ButlerSsoSession {
                session_name: String::from_str(name),
                session_expiration: exp,
                fresh: is_fresh(exp, now),
                profile_names: names,
            },
        );
        assert(sessions@.map_values(|s: ButlerSsoSession| s@) =~= before.push(
            (ss[i as int].0, opt_int(exp), fresh_spec(opt_int(exp), now as int), bound_names(ps, ss[i as int].0)),
        ));
        i = i + 1;
    }
    assert(ss.subrange(0, cfg.sessions.len() as int) =~= ss);

    let mut sso: Vec<ButlerSsoProfile> = Vec::new();
    assert(sso@.map_values(|p: ButlerSsoProfile| p@) =~= Seq::empty());
    assert(ps.subrange(0, 0) =~= Seq::<NamedView>::empty());
    let mut j: usize = 0;
    while j < cfg.profiles.len()
        invariant
            ps == cfg.profiles_view(),
            ss == cfg.sessions_view(),
            c == cache@,
            st == store@,
            j <= cfg.profiles.len(),
            sessions_status(c, ss, ps, now as int) is Ok,
            sso_status(st, ps.subrange(0, j as int), now as int) == Ok::<Seq<(Seq<char>, Seq<char>, Option<int>, bool)>, Error>(
                sso@.map_values(|p: ButlerSsoProfile| p@),
            ),
        decreases cfg.profiles.len() - j,
    {
        assert(ps.subrange(0, j + 1).drop_last() =~= ps.subrange(0, j as int));
        let p = &cfg.profiles[j];
        if let Some(sn) = p.get("sso_session") {
            let exp = match store.get(p.name()) {
                Err(e) => {
                    proof {
                        lemma_sso_err(st, ps, now as int, j as int + 1, ps.len() as int);
                        assert(ps.subrange(0, ps.len() as int) =~= ps);
                    }
                    return Err(e);
                },
                Ok(x) => x,
            };
            let ghost before = sso@.map_values(|p: ButlerSsoProfile| p@);
            sso.push(
                ButlerSsoProfile {
                    profile_name: p.name.clone(),
                    session_name: String::from_str(sn),
                    profile_expiration: exp,
                    fresh: is_fresh(exp, now),
                },
            );
            assert(sso@.map_values(|p: ButlerSsoProfile| p@) =~= before.push(
                (ps[j as int].0, sn@, opt_int(exp), fresh_spec(opt_int(exp), now as int)),
            ));
        }
        j = j + 1;
    }
    assert(ps.subrange(0, cfg.profiles.len() as int) =~= ps);

    let mut legacy: Vec<ButlerSsoLegacyProfile> = Vec::new();
    assert(legacy@.map_values(|p: ButlerSsoLegacyProfile| p@) =~= Seq::empty());
    let mut k: usize = 0;
    while k < cfg.profiles.len()
        invariant
            ps == cfg.profiles_view(),
            ss == cfg.sessions_view(),
            c == cache@,
            st == store@,
            k <= cfg.profiles.len(),
            sessions_status(c, ss, ps, now as int) == Ok::<Seq<(Seq<char>, Option<int>, bool, Seq<Seq<char>>)>, Error>(
                sessions@.map_values(|s: ButlerSsoSession| s@),
            ),
            sso_status(st, ps, now as int) == Ok::<Seq<(Seq<char>, Seq<char>, Option<int>, bool)>, Error>(
                sso@.map_values(|p: ButlerSsoProfile| p@),
            ),
            legacy_status(st, ps.subrange(0, k as int), now as int) == Ok::<Seq<(Seq<char>, Option<int>, bool)>, Error>(
                legacy@.map_values(|p: ButlerSsoLegacyProfile| p@),
            ),
        decreases cfg.profiles.len() - k,
    {
        assert(ps.subrange(0, k + 1).drop_last() =~= ps.subrange(0, k as int));
        let p = &cfg.profiles[k];
        if p.get("sso_session").is_none() && p.get("sso_region").is_some() && p.get("sso_start_url").is_some() {
            let exp = match store.get(p.name()) {
                Err(e) => {
                    proof {
                        lemma_legacy_err(st, ps, now as int, k as int + 1, ps.len() as int);
                        assert(ps.subrange(0, ps.len() as int) =~= ps);
                    }
                    return Err(e);
                },
                Ok(x) => x,
            };
            let ghost before = legacy@.map_values(|p: ButlerSsoLegacyProfile| p@);
            legacy.push(
                ButlerSsoLegacyProfile {
                    profile_name: p.name.clone(),
                    profile_expiration: exp,
                    fresh: is_fresh(exp, now),
                },
            );
            assert(legacy@.map_values(|p: ButlerSsoLegacyProfile| p@) =~= before.push(
                (ps[k as int].0, opt_int(exp), fresh_spec(opt_int(exp), now as int)),
            ));
        }
        k = k + 1;
    }
    assert(ps.subrange(0, cfg.profiles.len() as int) =~= ps);
    Ok(ButlerSsoConfig { sessions, sso_profiles: sso, legacy_profiles: legacy })
}

} // verus!

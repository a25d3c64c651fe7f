use vstd::prelude::*;

use crate::config::{IniSection, read_ini, ini_sections_of, sections_view, opt_text_view};
use crate::error::Error;
use crate::keyed::{lookup, upsert, pairs_view, upsert_pair, first_index, lemma_first_index, lemma_upsert};
use crate::text::same_text;
use crate::time::{aws_date, parse_aws_date_robust, rfc3339_text, rfc3339_text_of};

verus! {

/// Short-lived role credentials as the role exchange returns them; any of
/// the three texts may be missing from a response. `expiration` is in
/// milliseconds since the epoch.
pub struct RoleCredentials {
    pub access_key_id: Option<String>,
    pub secret_access_key: Option<String>,
    pub session_token: Option<String>,
    pub expiration: i64,
}

pub type SectionView = (Option<Seq<char>>, Seq<(Seq<char>, Seq<char>)>);

pub open spec fn expiration_key() -> Seq<char> {
    "aws_session_expiration"@
}

/// What `get` reports for a profile of a credentials file.
pub open spec fn get_spec(store: Seq<SectionView>, profile: Seq<char>) -> Result<Option<int>, Error> {
    match lookup(store, Some(profile)) {
        None => Ok(None),
        Some(props) => match lookup(props, expiration_key()) {
            None => Err(Error::MissingExpiration),
            Some(text) => match aws_date(text) {
                None => Err(Error::UnparsableExpiration),
                Some(m) => Ok(Some(m)),
            },
        },
    }
}

/// The five fields `put` writes into a profile's section.
pub open spec fn with_credentials(
    props: Seq<(Seq<char>, Seq<char>)>,
    key_id: Seq<char>,
    secret: Seq<char>,
    token: Seq<char>,
    expiration: Seq<char>,
) -> Seq<(Seq<char>, Seq<char>)> {
    let p1 = upsert(props, "aws_access_key_id"@, key_id);
    let p2 = upsert(p1, "aws_secret_access_key"@, secret);
    let p3 = upsert(p2, "aws_session_token"@, token);
    let p4 = upsert(p3, "aws_security_token"@, token);
    upsert(p4, expiration_key(), expiration)
}

/// What `put` makes of a credentials file.
pub open spec fn put_spec(store: Seq<SectionView>, profile: Seq<char>, creds: RoleCredentials) -> Result<Seq<SectionView>, Error> {
    match rfc3339_text_of(creds.expiration as int) {
        None => Err(Error::InvalidTimestamp),
        Some(exp) => match (creds.access_key_id, creds.secret_access_key, creds.session_token) {
            (_, _, None) => Err(Error::MissingSessionToken),
            (None, _, _) => Err(Error::MissingAccessKeyId),
            (_, None, _) => Err(Error::MissingSecretAccessKey),
            (Some(k), Some(s), Some(t)) => {
                let old_props = match lookup(store, Some(profile)) {
                    Some(p) => p,
                    None => Seq::empty(),
                };
                Ok(upsert(store, Some(profile), with_credentials(old_props, k@, s@, t@, exp)))
            },
        },
    }
}

/// After a successful `put`, `get` of the same profile reads back the
/// expiration text that `put` wrote: the instant that text reads as under
/// the accepted date formats.
pub proof fn lemma_put_then_get(store: Seq<SectionView>, profile: Seq<char>, creds: RoleCredentials)
    requires
        put_spec(store, profile, creds).is_ok(),
    ensures
        get_spec(put_spec(store, profile, creds).unwrap(), profile) == match aws_date(
            rfc3339_text_of(creds.expiration as int).unwrap(),
        ) {
            Some(m) => Ok::<Option<int>, Error>(Some(m)),
            None => Err(Error::UnparsableExpiration),
        },
{
    let exp = rfc3339_text_of(creds.expiration as int).unwrap();
    let old_props = match lookup(store, Some(profile)) {
        Some(p) => p,
        None => Seq::empty(),
    };
    let k = creds.access_key_id.unwrap()@;
    let s = creds.secret_access_key.unwrap()@;
    let t = creds.session_token.unwrap()@;
    let p1 = upsert(old_props, "aws_access_key_id"@, k);
    let p2 = upsert(p1, "aws_secret_access_key"@, s);
    let p3 = upsert(p2, "aws_session_token"@, t);
    let p4 = upsert(p3, "aws_security_token"@, t);
    lemma_upsert(p4, expiration_key(), exp);
    let props = with_credentials(old_props, k, s, t, exp);
    lemma_upsert(store, Some(profile), props);
}

/// A `put` for one profile leaves what `get` reports for every other profile.
pub proof fn lemma_put_keeps_others(store: Seq<SectionView>, profile: Seq<char>, other: Seq<char>, creds: RoleCredentials)
    requires
        put_spec(store, profile, creds).is_ok(),
        other != profile,
    ensures
        get_spec(put_spec(store, profile, creds).unwrap(), other) == get_spec(store, other),
{
    let exp = rfc3339_text_of(creds.expiration as int).unwrap();
    let old_props = match lookup(store, Some(profile)) {
        Some(p) => p,
        None => Seq::empty(),
    };
    let props = with_credentials(
        old_props,
        creds.access_key_id.unwrap()@,
        creds.secret_access_key.unwrap()@,
        creds.session_token.unwrap()@,
        exp,
    );
    lemma_upsert(store, Some(profile), props);
    assert(lookup(upsert(store, Some(profile), props), Some(other)) == lookup(store, Some(other)));
}

/// The expiration text stored for a profile, or `Never Authenticated`.
pub open spec fn profile_status_spec(store: Seq<SectionView>, profile: Seq<char>) -> Seq<char> {
    match lookup(store, Some(profile)) {
        Some(props) => match lookup(props, expiration_key()) {
            Some(t) => t,
            None => "Never Authenticated"@,
        },
        None => "Never Authenticated"@,
    }
}

/// The expiration text stored for a profile, as written in the file, or
/// `Never Authenticated` where there is none.
pub fn get_profile_status(store: &CredentialStore, profile: &str) -> (r: String)
    ensures
        r@ == profile_status_spec(store@, profile@),
{
    if let Some(i) = store.find_section(profile) {
        let props = &store.sections[i].properties;
        if let Some(j) = crate::keyed::find_key(props, "aws_session_expiration") {
            return props[j].1.clone();
        }
    }
    String::from_str("Never Authenticated")
}

/// The credentials file: one section per profile name.
pub struct CredentialStore {
    pub sections: Vec<IniSection>,
}

impl View for CredentialStore {
    type V = Seq<SectionView>;

    open spec fn view(&self) -> Seq<SectionView> {
        sections_view(self.sections@)
    }
}

/// The INI text that the INI writer makes of a list of sections.
pub uninterp spec fn ini_text_of(sections: Seq<SectionView>) -> Seq<char>;

/// Relies on `ini::Ini::new`, `Ini::with_section(..).add` and `Ini::write_to`
/// (rust-ini) to write sections out as INI text.
#[verifier::external_body]
fn write_ini(sections: &Vec<IniSection>) -> (r: String)
    ensures
        r@ == ini_text_of(sections_view(sections@)),
{
    let mut ini = ini::Ini::new();
    for sec in sections.iter() {
        let mut setter = ini.with_section(sec.name.clone());
        for (k, v) in sec.properties.iter() {
            setter.add(k.as_str(), v.as_str());
        }
    }
    let mut out: Vec<u8> = Vec::new();
    let _ = ini.write_to(&mut out);
    String::from_utf8_lossy(&out).into_owned()
}

impl CredentialStore {
    /// A store with no sections, for when the file does not exist yet.
    pub fn new() -> (r: CredentialStore)
        ensures
            r@ == Seq::<SectionView>::empty(),
    {
        let r = CredentialStore { sections: Vec::new() };
        assert(r@ =~= Seq::<SectionView>::empty());
        r
    }

    /// Reads the text of a credentials file.
    pub fn load(text: &str) -> (r: Result<CredentialStore, Error>)
        ensures
            match ini_sections_of(text@) {
                None => r == Err::<CredentialStore, Error>(Error::CredentialsUnparsable),
                Some(secs) => r.is_ok() && r.unwrap()@ == secs,
            },
    {
        match read_ini(text) {
            None => Err(Error::CredentialsUnparsable),
            Some(sections) => Ok(CredentialStore { sections }),
        }
    }

    /// The text to write back to the credentials file.
    pub fn render(&self) -> (r: String)
        ensures
            r@ == ini_text_of(self@),
    {
        write_ini(&self.sections)
    }

    fn find_section(&self, profile: &str) -> (r: Option<usize>)
        ensures
            r.is_none() ==> lookup(self@, Some(profile@)).is_none(),
            r.is_some() ==> r.unwrap() < self.sections.len() && r.unwrap() == first_index(
                self@,
                Some(profile@),
                0,
            ) && lookup(self@, Some(profile@)) == Some(self@[r.unwrap() as int].1),
    {
        let ghost s = self@;
        proof {
            lemma_first_index(s, Some(profile@), 0);
        }
        let mut i: usize = 0;
        while i < self.sections.len()
            invariant
                s == self@,
                i <= self.sections.len(),
                forall|j: int| 0 <= j < i ==> s[j].0 != Some(profile@),
                first_index(s, Some(profile@), 0) == first_index(s, Some(profile@), i as int),
            decreases self.sections.len() - i,
        {
            if let Some(name) = &self.sections[i].name {
                if same_text(name.as_str(), profile) {
                    assert(s[i as int].0 == Some(profile@));
                    assert(first_index(s, Some(profile@), i as int) == i);
                    proof {
                        lemma_first_index(s, Some(profile@), 0);
                    }
                    assert(lookup(s, Some(profile@)) == Some(s[i as int].1));
                    return Some(i);
                }
            }
            i = i + 1;
        }
        None
    }

    /// The expiration stored for a profile: `None` where the file has no
    /// section of that name, an error where the section has no readable
    /// `aws_session_expiration`.
    pub fn get(&self, profile: &str) -> (r: Result<Option<i64>, Error>)
        ensures
            match r {
                Ok(Some(m)) => get_spec(self@, profile@) == Ok::<Option<int>, Error>(Some(m as int)),
                Ok(None) => get_spec(self@, profile@) == Ok::<Option<int>, Error>(None),
                Err(e) => get_spec(self@, profile@) == Err::<Option<int>, Error>(e),
            },
    {
        match self.find_section(profile) {
            None => Ok(None),
            Some(i) => {
                let props = &self.sections[i].properties;
                match crate::keyed::find_key(props, "aws_session_expiration") {
                    None => Err(Error::MissingExpiration),
                    Some(j) => match parse_aws_date_robust(props[j].1.as_str()) {
                        None => Err(Error::UnparsableExpiration),
                        Some(m) => Ok(Some(m)),
                    },
                }
            },
        }
    }

    /// Writes a profile's role credentials into its section, creating the
    /// section if needed. The session token is written twice, the second
    /// time under its legacy name. Nothing changes on an error.
    pub fn put(&mut self, profile: &str, creds: &RoleCredentials) -> (r: Result<(), Error>)
        ensures
            match put_spec(old(self)@, profile@, *creds) {
                Ok(s) => r.is_ok() && final(self)@ == s,
                Err(e) => r == Err::<(), Error>(e) && final(self)@ == old(self)@,
            },
    {
        let exp = match rfc3339_text(creds.expiration) {
            None => return Err(Error::InvalidTimestamp),
            Some(t) => t,
        };
        let token = match &creds.session_token {
            None => return Err(Error::MissingSessionToken),
            Some(t) => t,
        };
        let key_id = match &creds.access_key_id {
            None => return Err(Error::MissingAccessKeyId),
            Some(k) => k,
        };
        let secret = match &creds.secret_access_key {
            None => return Err(Error::MissingSecretAccessKey),
            Some(s) => s,
        };
        let ghost s0 = self@;
        let idx = self.find_section(profile);
        let mut props: Vec<(String, String)> = match idx {
            Some(i) => crate::keyed::clone_pairs(&self.sections[i].properties),
            None => Vec::new(),
        };
        proof {
            if idx.is_none() {
                assert(pairs_view(props@) =~= Seq::<(Seq<char>, Seq<char>)>::empty());
            }
        }
        upsert_pair(&mut props, String::from_str("aws_access_key_id"), key_id.clone());
        upsert_pair(&mut props, String::from_str("aws_secret_access_key"), secret.clone());
        upsert_pair(&mut props, String::from_str("aws_session_token"), token.clone());
        upsert_pair(&mut props, String::from_str("aws_security_token"), token.clone());
        upsert_pair(&mut props, String::from_str("aws_session_expiration"), exp);
        let ghost new_props = pairs_view(props@);
        let section = IniSection { name: Some(String::from_str(profile)), properties: props };
        match idx {
            Some(i) => {
                self.sections.set(i, section);
                assert(self@ =~= s0.update(i as int, (Some(profile@), new_props)));
            },
            None => {
                proof {
                    lemma_first_index(s0, Some(profile@), 0);
                }
                self.sections.push(section);
                assert(self@ =~= s0.push((Some(profile@), new_props)));
            },
        }
        Ok(())
    }
}

} // verus!

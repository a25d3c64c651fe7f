use vstd::prelude::*;

use crate::config::{opt_str_view, opt_text_view};
use crate::error::Error;
use crate::keyed::{
    first_index, lemma_first_index, lemma_upsert, lemma_upsert_present, lemma_upsert_twice,
    lemma_upsert_unique, lookup, unique_keys, upsert,
};
use crate::time::{parse_rfc3339, parsed_rfc3339_of, zulu_text, zulu_text_of};

verus! {

/// The SHA-1 digest of a text's UTF-8 bytes, in lower-case hexadecimal.
pub uninterp spec fn sha1_hex_of(s: Seq<char>) -> Seq<char>;

/// Relies on `sha1::Sha1` (`Digest::new`, `update`, `finalize`) for the
/// digest of the text's bytes, and on the `LowerHex` format of the 20-byte
/// digest, two digits per byte.
#[verifier::external_body]
fn sha1_hex(s: &str) -> (r: String)
    ensures
        r@ == sha1_hex_of(s@),
        r@.len() == 40,
{
    let mut hasher = <sha1::Sha1 as sha1::Digest>::new();
    sha1::Digest::update(&mut hasher, s.as_bytes());
    format!("{:x}", sha1::Digest::finalize(hasher))
}

/// Name of the cache file for an identifying text: its digest and `.json`.
pub open spec fn cache_key(s: Seq<char>) -> Seq<char> {
    sha1_hex_of(s) + ".json"@
}

/// The cache file name for an identifying text (a start URL or a session
/// name): the same text always gives the same name.
pub fn fingerprint(s: &str) -> (r: String)
    ensures
        r@ == cache_key(s@),
{
    let h = sha1_hex(s);
    h.concat(".json")
}

/// An access token produced by the device flow. `expiration` is in
/// milliseconds since the epoch.
pub struct SsoToken {
    pub access_token: String,
    pub refresh_token: Option<String>,
    pub expiration: i64,
}

pub struct SsoTokenView {
    pub access_token: Seq<char>,
    pub refresh_token: Option<Seq<char>>,
    pub expiration: int,
}

impl View for SsoToken {
    type V = SsoTokenView;

    open spec fn view(&self) -> SsoTokenView {
        SsoTokenView {
            access_token: self.access_token@,
            refresh_token: opt_text_view(self.refresh_token),
            expiration: self.expiration as int,
        }
    }
}

/// What client registration returned: an id and a secret, either of which
/// may be missing, and the secret's expiry in seconds since the epoch.
pub struct ClientRegistration {
    pub client_id: Option<String>,
    pub client_secret: Option<String>,
    pub client_secret_expires_at: i64,
}

/// One token-cache file. Every field may be absent in a file written by
/// another tool.
pub struct CacheRecord {
    pub start_url: Option<String>,
    pub region: Option<String>,
    pub access_token: Option<String>,
    pub client_id: Option<String>,
    pub client_secret: Option<String>,
    pub registration_expires_at: Option<String>,
    pub expires_at: Option<String>,
    pub refresh_token: Option<String>,
    pub session_name: Option<String>,
}

pub struct CacheRecordView {
    pub start_url: Option<Seq<char>>,
    pub region: Option<Seq<char>>,
    pub access_token: Option<Seq<char>>,
    pub client_id: Option<Seq<char>>,
    pub client_secret: Option<Seq<char>>,
    pub registration_expires_at: Option<Seq<char>>,
    pub expires_at: Option<Seq<char>>,
    pub refresh_token: Option<Seq<char>>,
    pub session_name: Option<Seq<char>>,
}

impl View for CacheRecord {
    type V = CacheRecordView;

    open spec fn view(&self) -> CacheRecordView {
        CacheRecordView {
            start_url: opt_text_view(self.start_url),
            region: opt_text_view(self.region),
            access_token: opt_text_view(self.access_token),
            client_id: opt_text_view(self.client_id),
            client_secret: opt_text_view(self.client_secret),
            registration_expires_at: opt_text_view(self.registration_expires_at),
            expires_at: opt_text_view(self.expires_at),
            refresh_token: opt_text_view(self.refresh_token),
            session_name: opt_text_view(self.session_name),
        }
    }
}

fn clone_opt(o: &Option<String>) -> (r: Option<String>)
    ensures
        opt_text_view(r) == opt_text_view(*o),
{
    match o {
        Some(s) => Some(s.clone()),
        None => None,
    }
}

fn clone_record(r: &CacheRecord) -> (c: CacheRecord)
    ensures
        c@ == r@,
{
    CacheRecord {
        start_url: clone_opt(&r.start_url),
        region: clone_opt(&r.region),
        access_token: clone_opt(&r.access_token),
        client_id: clone_opt(&r.client_id),
        client_secret: clone_opt(&r.client_secret),
        registration_expires_at: clone_opt(&r.registration_expires_at),
        expires_at: clone_opt(&r.expires_at),
        refresh_token: clone_opt(&r.refresh_token),
        session_name: clone_opt(&r.session_name),
    }
}

/// The record that `store` writes, or the error it reports.
pub open spec fn record_spec(
    session_name: Option<Seq<char>>,
    start_url: Seq<char>,
    region: Seq<char>,
    client_id: Option<Seq<char>>,
    client_secret: Option<Seq<char>>,
    secret_expires_at: int,
    token: SsoTokenView,
) -> Result<CacheRecordView, Error> {
    if secret_expires_at * 1000 > i64::MAX || secret_expires_at * 1000 < i64::MIN {
        Err(Error::InvalidTimestamp)
    } else {
        match (zulu_text_of(secret_expires_at * 1000), zulu_text_of(token.expiration)) {
            (Some(reg), Some(exp)) => Ok(
                CacheRecordView {
                    start_url: Some(start_url),
                    region: Some(region),
                    access_token: Some(token.access_token),
                    client_id,
                    client_secret,
                    registration_expires_at: Some(reg),
                    expires_at: Some(exp),
                    refresh_token: token.refresh_token,
                    session_name,
                },
            ),
            _ => Err(Error::InvalidTimestamp),
        }
    }
}

/// Builds the record that the cache holds for a token.
pub fn cache_record(
    session_name: Option<&str>,
    start_url: &str,
    region: &str,
    registration: &ClientRegistration,
    token: &SsoToken,
) -> (r: Result<CacheRecord, Error>)
    ensures
        match r {
            Ok(rec) => record_spec(
                opt_str_view(session_name),
                start_url@,
                region@,
                opt_text_view(registration.client_id),
                opt_text_view(registration.client_secret),
                registration.client_secret_expires_at as int,
                token@,
            ) == Ok::<CacheRecordView, Error>(rec@),
            Err(e) => record_spec(
                opt_str_view(session_name),
                start_url@,
                region@,
                opt_text_view(registration.client_id),
                opt_text_view(registration.client_secret),
                registration.client_secret_expires_at as int,
                token@,
            ) == Err::<CacheRecordView, Error>(e),
        },
{
    let secs = registration.client_secret_expires_at;
    let millis = match secs.checked_mul(1000) {
        Some(m) => m,
        None => return Err(Error::InvalidTimestamp),
    };
    let reg = match zulu_text(millis) {
        Some(t) => t,
        None => return Err(Error::InvalidTimestamp),
    };
    let exp = match zulu_text(token.expiration) {
        Some(t) => t,
        None => return Err(Error::InvalidTimestamp),
    };
    let sn = match session_name {
        Some(s) => Some(String::from_str(s)),
        None => None,
    };
    Ok(
        CacheRecord {
            start_url: Some(String::from_str(start_url)),
            region: Some(String::from_str(region)),
            access_token: Some(token.access_token.clone()),
            client_id: clone_opt(&registration.client_id),
            client_secret: clone_opt(&registration.client_secret),
            registration_expires_at: Some(reg),
            expires_at: Some(exp),
            refresh_token: clone_opt(&token.refresh_token),
            session_name: sn,
        },
    )
}

pub type CacheView = Seq<(Seq<char>, CacheRecordView)>;

/// The cache after writing `rec` under the start URL's key and, when a
/// session name is given, under the session name's key as well.
pub open spec fn written(c: CacheView, session_name: Option<Seq<char>>, start_url: Seq<char>, rec: CacheRecordView) -> CacheView {
    let c1 = upsert(c, cache_key(start_url), rec);
    match session_name {
        Some(sn) => upsert(c1, cache_key(sn), rec),
        None => c1,
    }
}

/// What `store` makes of a cache.
pub open spec fn store_spec(
    c: CacheView,
    session_name: Option<Seq<char>>,
    start_url: Seq<char>,
    region: Seq<char>,
    client_id: Option<Seq<char>>,
    client_secret: Option<Seq<char>>,
    secret_expires_at: int,
    token: SsoTokenView,
) -> Result<CacheView, Error> {
    match record_spec(session_name, start_url, region, client_id, client_secret, secret_expires_at, token) {
        Ok(rec) => Ok(written(c, session_name, start_url, rec)),
        Err(e) => Err(e),
    }
}

/// Position of the first file at or after `i` whose record names session `sn`.
pub open spec fn session_index(c: CacheView, sn: Seq<char>, i: int) -> int
    decreases c.len() - i,
{
    if i < 0 || i >= c.len() {
        c.len() as int
    } else if c[i].1.session_name == Some(sn) {
        i
    } else {
        session_index(c, sn, i + 1)
    }
}

/// What `lookup` reports for a session name.
pub open spec fn lookup_spec(c: CacheView, sn: Seq<char>) -> Result<Option<SsoTokenView>, Error> {
    let i = session_index(c, sn, 0);
    if i >= c.len() {
        Ok(None)
    } else {
        let rec = c[i].1;
        match (rec.access_token, rec.expires_at) {
            (Some(tok), Some(exp)) => match parsed_rfc3339_of(exp) {
                Some(m) => Ok(
                    Some(SsoTokenView { access_token: tok, refresh_token: rec.refresh_token, expiration: m }),
                ),
                None => Err(Error::CacheDateInvalid),
            },
            _ => Err(Error::CacheEntryInvalid),
        }
    }
}

pub proof fn lemma_session_index(c: CacheView, sn: Seq<char>, i: int)
    requires
        0 <= i <= c.len(),
    ensures
        i <= session_index(c, sn, i) <= c.len(),
        session_index(c, sn, i) < c.len() ==> c[session_index(c, sn, i)].1.session_name == Some(sn),
        forall|j: int| i <= j < c.len() && c[j].1.session_name == Some(sn) ==> session_index(c, sn, i) <= j,
    decreases c.len() - i,
{
    if i < c.len() && c[i].1.session_name != Some(sn) {
        lemma_session_index(c, sn, i + 1);
    }
}

/// The same text always gives the same cache key.
pub proof fn lemma_fingerprint_deterministic(a: Seq<char>, b: Seq<char>)
    requires
        a == b,
    ensures
        cache_key(a) == cache_key(b),
{
}

/// Storing a token twice with the same arguments leaves the cache as
/// storing it once does.
pub proof fn lemma_store_idempotent(
    c: CacheView,
    session_name: Option<Seq<char>>,
    start_url: Seq<char>,
    region: Seq<char>,
    client_id: Option<Seq<char>>,
    client_secret: Option<Seq<char>>,
    secret_expires_at: int,
    token: SsoTokenView,
)
    ensures
        match store_spec(c, session_name, start_url, region, client_id, client_secret, secret_expires_at, token) {
            Ok(c1) => store_spec(c1, session_name, start_url, region, client_id, client_secret, secret_expires_at, token)
                == Ok::<CacheView, Error>(c1),
            Err(e) => true,
        },
{
    match record_spec(session_name, start_url, region, client_id, client_secret, secret_expires_at, token) {
        Ok(rec) => {
            let k1 = cache_key(start_url);
            let u = upsert(c, k1, rec);
            lemma_upsert(c, k1, rec);
            match session_name {
                Some(sn) => {
                    let k2 = cache_key(sn);
                    let t = upsert(u, k2, rec);
                    lemma_upsert(u, k2, rec);
                    assert(lookup(t, k1) == Some(rec));
                    lemma_upsert_present(t, k1, rec);
                    lemma_upsert_present(t, k2, rec);
                },
                None => {
                    lemma_upsert_twice(c, k1, rec);
                },
            }
        },
        Err(_) => {},
    }
}

/// A token stored under a session name is what a lookup of that name finds:
/// the same access token and refresh token, and the expiration that the
/// cached expiration text reads back as. This holds where no other file of
/// the cache already names the session (a stale copy would be found instead).
pub proof fn lemma_store_then_lookup(
    c: CacheView,
    sn: Seq<char>,
    start_url: Seq<char>,
    region: Seq<char>,
    client_id: Option<Seq<char>>,
    client_secret: Option<Seq<char>>,
    secret_expires_at: int,
    token: SsoTokenView,
)
    requires
        unique_keys(c),
        forall|j: int| 0 <= j < c.len() && #[trigger] c[j].1.session_name == Some(sn) ==> c[j].0 == cache_key(start_url) || c[j].0 == cache_key(sn),
        store_spec(c, Some(sn), start_url, region, client_id, client_secret, secret_expires_at, token).is_ok(),
    ensures
        lookup_spec(
            store_spec(c, Some(sn), start_url, region, client_id, client_secret, secret_expires_at, token).unwrap(),
            sn,
        ) == match parsed_rfc3339_of(zulu_text_of(token.expiration).unwrap()) {
            Some(m) => Ok::<Option<SsoTokenView>, Error>(
                Some(SsoTokenView { access_token: token.access_token, refresh_token: token.refresh_token, expiration: m }),
            ),
            None => Err(Error::CacheDateInvalid),
        },
{
    let rec = record_spec(Some(sn), start_url, region, client_id, client_secret, secret_expires_at, token).unwrap();
    let k1 = cache_key(start_url);
    let k2 = cache_key(sn);
    let u = upsert(c, k1, rec);
    let t = upsert(u, k2, rec);
    lemma_upsert_unique(c, k1, rec);
    lemma_upsert_unique(u, k2, rec);
    // Every file of the result that names the session holds the new record.
    assert forall|j: int| 0 <= j < t.len() && t[j].1.session_name == Some(sn) implies t[j].1 == rec by {
        if t[j] != (k2, rec) {
            assert(t[j].0 != k2 && u.contains(t[j]));
            let ju = choose|ju: int| 0 <= ju < u.len() && u[ju] == t[j];
            if u[ju] != (k1, rec) {
                assert(u[ju].0 != k1 && c.contains(u[ju]));
                let jc = choose|jc: int| 0 <= jc < c.len() && c[jc] == u[ju];
                assert(c[jc].1.session_name == Some(sn));
            }
        }
    }
    let w = choose|j: int| 0 <= j < t.len() && t[j] == (k2, rec);
    lemma_session_index(t, sn, 0);
    assert(session_index(t, sn, 0) <= w);
}

/// The token cache directory: file names with the records read from them,
/// in the order the directory lists them.
pub struct TokenCache {
    pub files: Vec<(String, CacheRecord)>,
}

impl View for TokenCache {
    type V = CacheView;

    open spec fn view(&self) -> CacheView {
        self.files@.map_values(|f: (String, CacheRecord)| (f.0@, f.1@))
    }
}

impl TokenCache {
    /// A cache with no files.
    pub fn new() -> (r: TokenCache)
        ensures
            r@ == Seq::<(Seq<char>, CacheRecordView)>::empty(),
    {
        let r = TokenCache { files: Vec::new() };
        assert(r@ =~= Seq::<(Seq<char>, CacheRecordView)>::empty());
        r
    }

    fn upsert_file(&mut self, key: String, rec: CacheRecord)
        ensures
            final(self)@ == upsert(old(self)@, key@, rec@),
    {
        let ghost s = self@;
        proof {
            lemma_first_index(s, key@, 0);
        }
        let mut i: usize = 0;
        while i < self.files.len()
            invariant
                s == self@,
                s == old(self)@,
                i <= self.files.len(),
                forall|j: int| 0 <= j < i ==> s[j].0 != key@,
                first_index(s, key@, 0) == first_index(s, key@, i as int),
            decreases self.files.len() - i,
        {
            if self.files[i].0 == key {
                let ghost nv = (key@, rec@);
                assert(s[i as int].0 == key@);
                assert(first_index(s, key@, i as int) == i);
                self.files.set(i, (key, rec));
                assert(self@ =~= s.update(i as int, nv));
                return;
            }
            i = i + 1;
        }
        let ghost nv = (key@, rec@);
        self.files.push((key, rec));
        assert(self@ =~= s.push(nv));
    }

    /// Writes a token's record under the fingerprint of its start URL and,
    /// when a session name is given, under the fingerprint of that name too.
    /// Returns the names of the files written, for the caller to persist.
    /// Nothing changes on an error.
    pub fn store(
        &mut self,
        session_name: Option<&str>,
        start_url: &str,
        region: &str,
        registration: &ClientRegistration,
        token: &SsoToken,
    ) -> (r: Result<Vec<String>, Error>)
        ensures
            match store_spec(
                old(self)@,
                opt_str_view(session_name),
                start_url@,
                region@,
                opt_text_view(registration.client_id),
                opt_text_view(registration.client_secret),
                registration.client_secret_expires_at as int,
                token@,
            ) {
                Ok(c) => r.is_ok() && final(self)@ == c && r.unwrap()@.map_values(|k: String| k@)
                    == match session_name {
                    Some(sn) => seq![cache_key(start_url@), cache_key(sn@)],
                    None => seq![cache_key(start_url@)],
                },
                Err(e) => r == Err::<Vec<String>, Error>(e) && final(self)@ == old(self)@,
            },
            unique_keys(old(self)@) ==> unique_keys(final(self)@),
    {
        let rec = match cache_record(session_name, start_url, region, registration, token) {
            Ok(rec) => rec,
            Err(e) => return Err(e),
        };
        let mut keys: Vec<String> = Vec::new();
        let k1 = fingerprint(start_url);
        keys.push(k1.clone());
        proof {
            if unique_keys(self@) {
                lemma_upsert_unique(self@, k1@, rec@);
                if let Some(sn) = session_name {
                    lemma_upsert_unique(upsert(self@, k1@, rec@), cache_key(sn@), rec@);
                }
            }
        }
        match session_name {
            Some(sn) => {
                let copy = clone_record(&rec);
                self.upsert_file(k1, copy);
                let k2 = fingerprint(sn);
                keys.push(k2.clone());
                self.upsert_file(k2, rec);
            },
            None => {
                self.upsert_file(k1, rec);
            },
        }
        assert(keys@.map_values(|k: String| k@) =~= match session_name {
            Some(sn) => seq![cache_key(start_url@), cache_key(sn@)],
            None => seq![cache_key(start_url@)],
        });
        Ok(keys)
    }

    /// The token of the first file whose record names the session. Files of
    /// other sessions are passed over; a matching record without an access
    /// token or an expiration, or with an unreadable expiration, is an error.
    pub fn lookup(&self, session_name: &str) -> (r: Result<Option<SsoToken>, Error>)
        ensures
            match r {
                Ok(Some(t)) => lookup_spec(self@, session_name@) == Ok::<Option<SsoTokenView>, Error>(Some(t@)),
                Ok(None) => lookup_spec(self@, session_name@) == Ok::<Option<SsoTokenView>, Error>(None),
                Err(e) => lookup_spec(self@, session_name@) == Err::<Option<SsoTokenView>, Error>(e),
            },
    {
        let ghost c = self@;
        let mut i: usize = 0;
        while i < self.files.len()
            invariant
                c == self@,
                i <= self.files.len(),
                session_index(c, session_name@, 0) == session_index(c, session_name@, i as int),
            decreases self.files.len() - i,
        {
            let rec = &self.files[i].1;
            let matches = match &rec.session_name {
                Some(n) => crate::text::same_text(n.as_str(), session_name),
                None => false,
            };
            if matches {
                assert(session_index(c, session_name@, i as int) == i);
                let tok = match &rec.access_token {
                    Some(t) => t.clone(),
                    None => return Err(Error::CacheEntryInvalid),
                };
                let exp = match &rec.expires_at {
                    Some(e) => e,
                    None => return Err(Error::CacheEntryInvalid),
                };
                let m = match parse_rfc3339(exp.as_str()) {
                    Some(m) => m,
                    None => return Err(Error::CacheDateInvalid),
                };
                return Ok(
                    Some(SsoToken { access_token: tok, refresh_token: clone_opt(&rec.refresh_token), expiration: m }),
                );
            }
            i = i + 1;
        }
        Ok(None)
    }
}

} // verus!

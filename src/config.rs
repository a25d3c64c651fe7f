use vstd::prelude::*;

use crate::error::Error;
use crate::keyed::{lookup, pairs_view, upsert, upsert_all, upsert_pair, lemma_first_index, first_index};
use crate::text::{ascii_lower, ascii_lowercase, has_prefix, strip_prefix};

verus! {

/// One `[name]` block of an INI file, with its entries in file order.
/// `name` is `None` for the entries above the first header.
pub struct IniSection {
    pub name: Option<String>,
    pub properties: Vec<(String, String)>,
}

pub open spec fn opt_text_view(o: Option<String>) -> Option<Seq<char>> {
    match o {
        Some(s) => Some(s@),
        None => None,
    }
}

impl View for IniSection {
    type V = (Option<Seq<char>>, Seq<(Seq<char>, Seq<char>)>);

    open spec fn view(&self) -> Self::V {
        (opt_text_view(self.name), pairs_view(self.properties@))
    }
}

pub open spec fn sections_view(v: Seq<IniSection>) -> Seq<(Option<Seq<char>>, Seq<(Seq<char>, Seq<char>)>)> {
    v.map_values(|s: IniSection| s@)
}

/// The sections that the INI reader finds in a text, or `None` where it
/// rejects the text.
pub uninterp spec fn ini_sections_of(text: Seq<char>) -> Option<Seq<(Option<Seq<char>>, Seq<(Seq<char>, Seq<char>)>)>>;

/// Relies on `ini::Ini::load_from_str` (rust-ini) to split INI text into its
/// sections, and on `Ini::iter` / `Properties::iter` to hand them out in order.
#[verifier::external_body]
pub(crate) fn read_ini(text: &str) -> (r: Option<Vec<IniSection>>)
    ensures
        match r {
            Some(v) => ini_sections_of(text@) == Some(sections_view(v@)),
            None => ini_sections_of(text@).is_none(),
        },
{
    ini::Ini::load_from_str(text).ok().map(|ini| {
        ini.iter().map(|(name, props)| IniSection {
            name: name.map(|n| n.to_string()),
            properties: props.iter().map(|(k, v)| (k.to_string(), v.to_string())).collect(),
        }).collect()
    })
}

/// A named set of properties: the view is the name and the property list.
pub type NamedView = (Seq<char>, Seq<(Seq<char>, Seq<char>)>);

/// A profile of the configuration file: `[profile <name>]`.
/// Property names are held in lower case.
pub struct Profile {
    pub name: String,
    pub properties: Vec<(String, String)>,
}

/// An identity-provider binding: `[sso-session <name>]`.
/// Property names are held in lower case.
pub struct Session {
    pub name: String,
    pub properties: Vec<(String, String)>,
}

impl View for Profile {
    type V = NamedView;

    open spec fn view(&self) -> NamedView {
        (self.name@, pairs_view(self.properties@))
    }
}

impl View for Session {
    type V = NamedView;

    open spec fn view(&self) -> NamedView {
        (self.name@, pairs_view(self.properties@))
    }
}

/// The value of property `key` in a property list, the key compared without
/// regard to ASCII case.
pub open spec fn prop(props: Seq<(Seq<char>, Seq<char>)>, key: Seq<char>) -> Option<Seq<char>> {
    lookup(props, ascii_lower(key))
}

pub open spec fn opt_str_view(o: Option<&str>) -> Option<Seq<char>> {
    match o {
        Some(s) => Some(s@),
        None => None,
    }
}

fn get_prop<'a>(props: &'a Vec<(String, String)>, key: &str) -> (r: Option<&'a str>)
    ensures
        opt_str_view(r) == prop(pairs_view(props@), key@),
{
    let lowered = ascii_lowercase(key);
    match crate::keyed::find_key(props, lowered.as_str()) {
        Some(i) => Some(props[i].1.as_str()),
        None => None,
    }
}

impl Profile {
    pub fn name(&self) -> (r: &str)
        ensures
            r@ == self.name@,
    {
        self.name.as_str()
    }

    /// The value of a property; the name is matched without regard to ASCII case.
    pub fn get(&self, key: &str) -> (r: Option<&str>)
        ensures
            opt_str_view(r) == prop(self@.1, key@),
    {
        get_prop(&self.properties, key)
    }
}

impl Session {
    pub fn name(&self) -> (r: &str)
        ensures
            r@ == self.name@,
    {
        self.name.as_str()
    }

    /// The value of a property; the name is matched without regard to ASCII case.
    pub fn get(&self, key: &str) -> (r: Option<&str>)
        ensures
            opt_str_view(r) == prop(self@.1, key@),
    {
        get_prop(&self.properties, key)
    }
}

pub open spec fn profile_prefix() -> Seq<char> {
    seq!['p', 'r', 'o', 'f', 'i', 'l', 'e', ' ']
}

pub open spec fn session_prefix() -> Seq<char> {
    seq!['s', 's', 'o', '-', 's', 'e', 's', 's', 'i', 'o', 'n', ' ']
}

/// The entries of a section with their names in lower case, a repeated name
/// keeping its last value.
pub open spec fn normalized(entries: Seq<(Seq<char>, Seq<char>)>) -> Seq<(Seq<char>, Seq<char>)> {
    upsert_all(entries.map_values(|e: (Seq<char>, Seq<char>)| (ascii_lower(e.0), e.1)))
}

/// The profiles and sessions that a list of INI sections defines, each list
/// keyed by name in order of first appearance; a later section of the same
/// name replaces an earlier one. Sections of other names are left out.
pub open spec fn classify(secs: Seq<(Option<Seq<char>>, Seq<(Seq<char>, Seq<char>)>)>) -> (
    Seq<(Seq<char>, Seq<(Seq<char>, Seq<char>)>)>,
    Seq<(Seq<char>, Seq<(Seq<char>, Seq<char>)>)>,
)
    decreases secs.len(),
{
    if secs.len() == 0 {
        (Seq::empty(), Seq::empty())
    } else {
        let (p, s) = classify(secs.drop_last());
        let sec = secs.last();
        match sec.0 {
            Some(n) => if has_prefix(n, profile_prefix()) {
                (upsert(p, n.subrange(8, n.len() as int), normalized(sec.1)), s)
            } else if has_prefix(n, session_prefix()) {
                (p, upsert(s, n.subrange(12, n.len() as int), normalized(sec.1)))
            } else {
                (p, s)
            },
            None => (p, s),
        }
    }
}

/// All profiles and sessions of one configuration file.
pub struct AwsConfigSections {
    pub profiles: Vec<Profile>,
    pub sessions: Vec<Session>,
}

impl AwsConfigSections {
    pub open spec fn profiles_view(&self) -> Seq<NamedView> {
        self.profiles@.map_values(|p: Profile| p@)
    }

    pub open spec fn sessions_view(&self) -> Seq<NamedView> {
        self.sessions@.map_values(|s: Session| s@)
    }

    /// Reads the configuration file's text. `[profile <name>]` sections become
    /// profiles and `[sso-session <name>]` sections become sessions, keyed by
    /// the name after the prefix; other sections are ignored.
    pub fn parse(text: &str) -> (r: Result<AwsConfigSections, Error>)
        ensures
            match ini_sections_of(text@) {
                None => r == Err::<AwsConfigSections, Error>(Error::ConfigUnparsable),
                Some(secs) => r.is_ok() && (r.unwrap().profiles_view(), r.unwrap().sessions_view())
                    == classify(secs),
            },
    {
        match read_ini(text) {
            None => Err(Error::ConfigUnparsable),
            Some(secs) => Ok(Self::from_sections(&secs)),
        }
    }

    /// Builds the profiles and sessions from sections already read.
    pub fn from_sections(secs: &Vec<IniSection>) -> (r: AwsConfigSections)
        ensures
            (r.profiles_view(), r.sessions_view()) == classify(sections_view(secs@)),
    {
        let mut out = AwsConfigSections { profiles: Vec::new(), sessions: Vec::new() };
        let ghost all = sections_view(secs@);
        let pp = "profile ";
        let sp = "sso-session ";
        proof {
            reveal_strlit("profile ");
            reveal_strlit("sso-session ");
            assert(pp@ =~= profile_prefix());
            assert(sp@ =~= session_prefix());
        }
        let mut i: usize = 0;
        while i < secs.len()
            invariant
                i <= secs.len(),
                all == sections_view(secs@),
                pp@ == profile_prefix(),
                sp@ == session_prefix(),
                (out.profiles_view(), out.sessions_view()) == classify(all.subrange(0, i as int)),
            decreases secs.len() - i,
        {
            proof {
                assert(all.subrange(0, i + 1).drop_last() =~= all.subrange(0, i as int));
            }
            let sec = &secs[i];
            if let Some(name) = &sec.name {
                match strip_prefix(name.as_str(), pp) {
                    Some(rest) => {
                        let props = normalize(&sec.properties);
                        upsert_profile(&mut out.profiles, String::from_str(rest), props);
                    },
                    None => match strip_prefix(name.as_str(), sp) {
                        Some(rest) => {
                            let props = normalize(&sec.properties);
                            upsert_session(&mut out.sessions, String::from_str(rest), props);
                        },
                        None => {},
                    },
                }
            }
            i = i + 1;
        }
        proof {
            assert(all.subrange(0, secs.len() as int) =~= all);
        }
        out
    }
}

/// The entries of one section, names in lower case, a repeated name keeping
/// its last value.
pub fn normalize(entries: &Vec<(String, String)>) -> (r: Vec<(String, String)>)
    ensures
        pairs_view(r@) == normalized(pairs_view(entries@)),
{
    let ghost src = pairs_view(entries@);
    let ghost low = src.map_values(|e: (Seq<char>, Seq<char>)| (ascii_lower(e.0), e.1));
    let mut out: Vec<(String, String)> = Vec::new();
    let mut i: usize = 0;
    while i < entries.len()
        invariant
            i <= entries.len(),
            src == pairs_view(entries@),
            low == src.map_values(|e: (Seq<char>, Seq<char>)| (ascii_lower(e.0), e.1)),
            pairs_view(out@) == upsert_all(low.subrange(0, i as int)),
        decreases entries.len() - i,
    {
        proof {
            assert(low.subrange(0, i + 1).drop_last() =~= low.subrange(0, i as int));
        }
        let key = ascii_lowercase(entries[i].0.as_str());
        let val = entries[i].1.clone();
        upsert_pair(&mut out, key, val);
        i = i + 1;
    }
    proof {
        assert(low.subrange(0, entries.len() as int) =~= low);
    }
    out
}

fn upsert_profile(v: &mut Vec<Profile>, name: String, props: Vec<(String, String)>)
    ensures
        final(v)@.map_values(|p: Profile| p@) == upsert(
            old(v)@.map_values(|p: Profile| p@),
            name@,
            pairs_view(props@),
        ),
{
    let ghost s = v@.map_values(|p: Profile| p@);
    proof {
        lemma_first_index(s, name@, 0);
    }
    let mut i: usize = 0;
    while i < v.len()
        invariant
            s == v@.map_values(|p: Profile| p@),
            s == old(v)@.map_values(|p: Profile| p@),
            i <= v.len(),
            forall|j: int| 0 <= j < i ==> s[j].0 != name@,
            first_index(s, name@, 0) == first_index(s, name@, i as int),
        decreases v.len() - i,
    {
        if v[i].name == name {
            let ghost nv = (name@, pairs_view(props@));
            assert(s[i as int].0 == name@);
            assert(first_index(s, name@, i as int) == i);
            v.set(i, Profile { name, properties: props });
            assert(v@.map_values(|p: Profile| p@) =~= s.update(i as int, nv));
            return;
        }
        i = i + 1;
    }
    let ghost nv = (name@, pairs_view(props@));
    v.push(Profile { name, properties: props });
    assert(v@.map_values(|p: Profile| p@) =~= s.push(nv));
}

fn upsert_session(v: &mut Vec<Session>, name: String, props: Vec<(String, String)>)
    ensures
        final(v)@.map_values(|p: Session| p@) == upsert(
            old(v)@.map_values(|p: Session| p@),
            name@,
            pairs_view(props@),
        ),
{
    let ghost s = v@.map_values(|p: Session| p@);
    proof {
        lemma_first_index(s, name@, 0);
    }
    let mut i: usize = 0;
    while i < v.len()
        invariant
            s == v@.map_values(|p: Session| p@),
            s == old(v)@.map_values(|p: Session| p@),
            i <= v.len(),
            forall|j: int| 0 <= j < i ==> s[j].0 != name@,
            first_index(s, name@, 0) == first_index(s, name@, i as int),
        decreases v.len() - i,
    {
        if v[i].name == name {
            let ghost nv = (name@, pairs_view(props@));
            assert(s[i as int].0 == name@);
            assert(first_index(s, name@, i as int) == i);
            v.set(i, Session { name, properties: props });
            assert(v@.map_values(|p: Session| p@) =~= s.update(i as int, nv));
            return;
        }
        i = i + 1;
    }
    let ghost nv = (name@, pairs_view(props@));
    v.push(Session { name, properties: props });
    assert(v@.map_values(|p: Session| p@) =~= s.push(nv));
}

} // verus!
